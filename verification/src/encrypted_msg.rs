use vstd::prelude::*;

use crate::aes;
use crate::aes::{Iv, Key};
use crate::errors::{CipherError, EntryError};

verus! {

/// Ciphertext bytes of one entry.
#[derive(Debug, Clone)]
pub struct EncryptedMsg(pub Vec<u8>);

impl View for EncryptedMsg {
    type V = Seq<u8>;

    open spec fn view(&self) -> Seq<u8> {
        self.0@
    }
}

/// One wire entry: the per-message IV together with its ciphertext.
#[derive(Debug, Clone)]
pub struct EncryptedMsgWrapper {
    iv: Iv,
    encrypted_msg: EncryptedMsg,
}

impl View for EncryptedMsgWrapper {
    type V = (Seq<u8>, Seq<u8>);

    closed spec fn view(&self) -> (Seq<u8>, Seq<u8>) {
        (self.iv@, self.encrypted_msg@)
    }
}

impl EncryptedMsgWrapper {
    /// A well-formed entry carries a whole-block IV.
    pub open spec fn wf(&self) -> bool {
        self@.0.len() == 16
    }

    pub fn new(iv: Iv, encrypted_msg: EncryptedMsg) -> (w: EncryptedMsgWrapper)
        requires
            iv.wf(),
        ensures
            w@ == (iv@, encrypted_msg@),
            w.wf(),
    {
        EncryptedMsgWrapper { iv, encrypted_msg }
    }

    /// Decrypt this entry with its own IV.
    pub fn decrypt(&self, aes_key: &Key) -> (r: Result<Vec<u8>, CipherError>)
        requires
            aes_key.wf(),
            self.wf(),
        ensures
            r is Ok <==> aes::spec_cbc_decrypt(self@.1, aes_key@, self@.0) is Some,
            match r {
                Ok(p) => aes::spec_cbc_decrypt(self@.1, aes_key@, self@.0) == Some(p@),
                Err(CipherError::InvalidLength) => self@.1.len() % 16 != 0,
                Err(CipherError::InvalidPadding) => self@.1.len() % 16 == 0
                    && aes::spec_cbc_decrypt(self@.1, aes_key@, self@.0) is None,
            },
    {
        aes::decrypt(&self.encrypted_msg, aes_key, &self.iv)
    }

    /// Decrypt this entry and read the plaintext as UTF-8 text.
    pub fn decrypt_str(&self, aes_key: &Key) -> (r: Result<String, EntryError>)
        requires
            aes_key.wf(),
            self.wf(),
        ensures
            match r {
                Ok(s) => aes::spec_decrypt_str(self@.1, aes_key@, self@.0) == Ok::<Seq<char>, EntryError>(s@),
                Err(e) => aes::spec_decrypt_str(self@.1, aes_key@, self@.0) == Err::<Seq<char>, EntryError>(e),
            },
    {
        aes::decrypt_str(&self.encrypted_msg, aes_key, &self.iv)
    }
}

} // verus!
