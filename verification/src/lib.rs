pub mod aes;
pub mod codec;
pub mod command;
pub mod encrypted_msg;
pub mod errors;
pub mod listener;
