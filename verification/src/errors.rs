use vstd::prelude::*;

verus! {

/// A single entry could not be decrypted.
#[derive(Debug, Clone, PartialEq, Eq)]
pub enum CipherError {
    /// The ciphertext length is not a whole number of cipher blocks.
    InvalidLength,
    /// The padding did not check out after decryption: the ciphertext was
    /// corrupted or the key or IV is wrong.
    InvalidPadding,
}

/// A decrypted entry failed a per-entry step: the cipher itself, or turning
/// the recovered bytes into text.
#[derive(Debug, Clone, PartialEq, Eq)]
pub enum EntryError {
    Cipher(CipherError),
    /// The decrypted bytes are not valid text.
    Encoding,
}

/// The remote payload does not follow the wire format. Decoding is
/// all-or-nothing: one malformed element fails the whole batch.
#[derive(Debug, Clone, PartialEq, Eq)]
pub struct DecodeError;

/// The key material read at startup is unusable.
#[derive(Debug, Clone, PartialEq, Eq)]
pub enum ConfigError {
    /// The key text is not a hex-encoded byte string.
    InvalidHex,
    /// The key does not hold exactly 32 bytes.
    WrongKeyLength,
}

} // verus!
