use vstd::prelude::*;

verus! {

/// What the user asked the program to do.
#[derive(Debug, Clone)]
pub enum Command {
    Send {
        contract_account_id: String,
        aes_key_file_path: String,
        recipient_account_id: String,
        msg: String,
    },
    Receive {
        contract_account_id: String,
        aes_key_file_path: String,
    },
}

impl Command {
    /// The key file path the command names, whichever variant it is.
    pub open spec fn spec_aes_key_file_path(&self) -> Seq<char> {
        match self {
            Command::Send { aes_key_file_path, .. } => aes_key_file_path@,
            Command::Receive { aes_key_file_path, .. } => aes_key_file_path@,
        }
    }

    pub fn get_aes_key_file_path(&self) -> (p: &str)
        ensures
            p@ == self.spec_aes_key_file_path(),
    {
        match self {
            Command::Send { aes_key_file_path, .. } => aes_key_file_path.as_str(),
            Command::Receive { aes_key_file_path, .. } => aes_key_file_path.as_str(),
        }
    }
}

} // verus!
