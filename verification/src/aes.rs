use vstd::prelude::*;

use aes::Aes256;
use block_modes::block_padding::Pkcs7;
use block_modes::{BlockMode, Cbc};
use rand::Rng;

use crate::encrypted_msg::EncryptedMsg;
use crate::errors::{CipherError, ConfigError, EntryError};

verus! {

/// What AES-256-CBC with PKCS#7 padding makes of `data` under `key` and `iv`.
/// The result depends on the three arguments alone.
pub uninterp spec fn spec_cbc_encrypt(data: Seq<u8>, key: Seq<u8>, iv: Seq<u8>) -> Seq<u8>;

/// What AES-256-CBC decryption with PKCS#7 unpadding recovers from `data`
/// under `key` and `iv`: `None` when the length is not whole blocks or the
/// padding does not check out.
pub uninterp spec fn spec_cbc_decrypt(data: Seq<u8>, key: Seq<u8>, iv: Seq<u8>) -> Option<Seq<u8>>;

/// Relies on `block_modes::Cbc::<Aes256, Pkcs7>::encrypt_vec`: deterministic
/// in (data, key, iv); the output is the input padded to the next block
/// boundary and encrypted, and `decrypt_vec` under the same key and IV
/// recovers the input.
#[verifier::external_body]
fn cbc_encrypt_bytes(data: &[u8], key: &[u8], iv: &[u8]) -> (r: Vec<u8>)
    requires
        key@.len() == 32,
        iv@.len() == 16,
    ensures
        r@ == spec_cbc_encrypt(data@, key@, iv@),
        r@.len() == (data@.len() / 16 + 1) * 16,
        spec_cbc_decrypt(r@, key@, iv@) == Some(data@),
{
    let cipher = Cbc::<Aes256, Pkcs7>::new_from_slices(key, iv).unwrap();
    cipher.encrypt_vec(data)
}

/// Relies on `block_modes::Cbc::<Aes256, Pkcs7>::decrypt_vec`: deterministic
/// in (data, key, iv); fails exactly when the length is not whole blocks or
/// the recovered padding is invalid.
#[verifier::external_body]
fn cbc_decrypt_bytes(data: &[u8], key: &[u8], iv: &[u8]) -> (r: Option<Vec<u8>>)
    requires
        key@.len() == 32,
        iv@.len() == 16,
    ensures
        match r {
            Some(p) => spec_cbc_decrypt(data@, key@, iv@) == Some(p@),
            None => spec_cbc_decrypt(data@, key@, iv@) is None,
        },
        data@.len() % 16 != 0 ==> r is None,
{
    let cipher = Cbc::<Aes256, Pkcs7>::new_from_slices(key, iv).unwrap();
    cipher.decrypt_vec(data).ok()
}

/// Relies on `rand::Rng::fill` on `rand::thread_rng`: fills the buffer with
/// random bytes; nothing is assumed of the values drawn.
#[verifier::external_body]
fn random_bytes_16() -> (r: Vec<u8>)
    ensures
        r@.len() == 16,
{
    let mut rng = rand::thread_rng();
    let mut iv = vec![0u8; 16];
    rng.fill(&mut iv[..]);
    iv
}

/// The byte value of one hex digit, upper or lower case.
pub open spec fn hex_digit_value(c: char) -> Option<u8> {
    let n = c as u32;
    if 48 <= n && n <= 57 {
        Some((n - 48) as u8)
    } else if 97 <= n && n <= 102 {
        Some((n - 87) as u8)
    } else if 65 <= n && n <= 70 {
        Some((n - 55) as u8)
    } else {
        None
    }
}

/// Hex decoding: an even-length string of hex digits stands for its bytes,
/// two digits each; anything else decodes to nothing.
pub open spec fn spec_hex_decode(s: Seq<char>) -> Option<Seq<u8>>
    decreases s.len(),
{
    if s.len() == 0 {
        Some(Seq::empty())
    } else if s.len() == 1 {
        None
    } else {
        match (hex_digit_value(s[0]), hex_digit_value(s[1])) {
            (Some(hi), Some(lo)) => match spec_hex_decode(s.skip(2)) {
                Some(rest) => Some(seq![(hi * 16 + lo) as u8].add(rest)),
                None => None,
            },
            _ => None,
        }
    }
}

/// Relies on `hex::decode`: decodes even-length hex-digit strings to their
/// bytes and refuses everything else.
#[verifier::external_body]
fn hex_decode_str(s: &str) -> (r: Option<Vec<u8>>)
    ensures
        match r {
            Some(b) => spec_hex_decode(s@) == Some(b@),
            None => spec_hex_decode(s@) is None,
        },
{
    hex::decode(s).ok()
}

/// What `str::trim` leaves of `s`. The result depends on the characters alone.
pub uninterp spec fn spec_trim(s: Seq<char>) -> Seq<char>;

/// Relies on `str::trim`: returns the string with leading and trailing
/// whitespace removed.
#[verifier::external_body]
fn trim_str(s: &str) -> (r: &str)
    ensures
        r@ == spec_trim(s@),
{
    s.trim()
}

/// What `String::from_utf8` makes of `bytes`: the characters when the bytes
/// are valid UTF-8, nothing otherwise. Depends on the bytes alone.
pub uninterp spec fn spec_utf8_decode(bytes: Seq<u8>) -> Option<Seq<char>>;

/// Relies on `String::from_utf8`: succeeds exactly on valid UTF-8 and is
/// deterministic in the bytes.
#[verifier::external_body]
fn utf8_to_string(bytes: Vec<u8>) -> (r: Option<String>)
    ensures
        match r {
            Some(s) => spec_utf8_decode(bytes@) == Some(s@),
            None => spec_utf8_decode(bytes@) is None,
        },
{
    String::from_utf8(bytes).ok()
}

/// Initialization Vector
///
/// Notes:
/// - You must use the same IV when you encrypt and when you decrypt
/// - Since the IV doesn't need to be kept secret, it can be safely transmitted with the ciphertext
/// - You should generate a new IV for each new encryption
#[derive(Debug, Clone)]
pub struct Iv(Vec<u8>);

impl View for Iv {
    type V = Seq<u8>;

    closed spec fn view(&self) -> Seq<u8> {
        self.0@
    }
}

impl Iv {
    /// An IV is one cipher block: 16 bytes.
    pub open spec fn wf(&self) -> bool {
        self@.len() == 16
    }

    /// A fresh random IV.
    pub fn generate() -> (iv: Iv)
        ensures
            iv.wf(),
    {
        Iv(random_bytes_16())
    }

    /// An IV from raw bytes; refused unless they are exactly one block.
    pub fn from_bytes(bytes: Vec<u8>) -> (r: Option<Iv>)
        ensures
            match r {
                Some(iv) => iv@ == bytes@ && iv.wf(),
                None => bytes@.len() != 16,
            },
    {
        if bytes.len() == 16 {
            Some(Iv(bytes))
        } else {
            None
        }
    }

    /// The raw bytes of the IV.
    pub fn bytes(&self) -> (b: &Vec<u8>)
        ensures
            b@ == self@,
    {
        &self.0
    }
}

/// A 256-bit AES key: 32 raw bytes.
#[derive(Debug, Clone)]
pub struct Key(Vec<u8>);

impl View for Key {
    type V = Seq<u8>;

    closed spec fn view(&self) -> Seq<u8> {
        self.0@
    }
}

impl Key {
    /// A key holds exactly 32 bytes.
    pub open spec fn wf(&self) -> bool {
        self@.len() == 32
    }

    /// Read a key from its hex encoding, surrounding whitespace ignored.
    pub fn load_from_hex_string(hex_string: &str) -> (r: Result<Key, ConfigError>)
        ensures
            match r {
                Ok(k) => k.wf() && spec_hex_decode(spec_trim(hex_string@)) == Some(k@),
                Err(ConfigError::InvalidHex) => spec_hex_decode(spec_trim(hex_string@)) is None,
                Err(ConfigError::WrongKeyLength) => match spec_hex_decode(spec_trim(hex_string@)) {
                    Some(b) => b.len() != 32,
                    None => false,
                },
            },
    {
        let trimmed = trim_str(hex_string);
        match hex_decode_str(trimmed) {
            None => Err(ConfigError::InvalidHex),
            Some(bytes) => {
                if bytes.len() == 32 {
                    Ok(Key(bytes))
                } else {
                    Err(ConfigError::WrongKeyLength)
                }
            },
        }
    }
}

/// Encrypt `data` under AES-256-CBC with PKCS#7 padding.
///
/// The last clause is the round trip: decrypting the result under the same
/// key and IV gives back `data` exactly.
pub fn encrypt(data: &[u8], key: &Key, iv: &Iv) -> (r: EncryptedMsg)
    requires
        key.wf(),
        iv.wf(),
    ensures
        r@ == spec_cbc_encrypt(data@, key@, iv@),
        r@.len() == (data@.len() / 16 + 1) * 16,
        spec_cbc_decrypt(r@, key@, iv@) == Some(data@),
{
    EncryptedMsg(cbc_encrypt_bytes(data, key.0.as_slice(), iv.0.as_slice()))
}

/// Decrypt an entry. Fails exactly when CBC/PKCS#7 decryption does: on a
/// length that is not whole blocks, or on padding that does not check out.
pub fn decrypt(encrypted_data: &EncryptedMsg, key: &Key, iv: &Iv) -> (r: Result<Vec<u8>, CipherError>)
    requires
        key.wf(),
        iv.wf(),
    ensures
        r is Ok <==> spec_cbc_decrypt(encrypted_data@, key@, iv@) is Some,
        match r {
            Ok(p) => spec_cbc_decrypt(encrypted_data@, key@, iv@) == Some(p@),
            Err(CipherError::InvalidLength) => encrypted_data@.len() % 16 != 0,
            Err(CipherError::InvalidPadding) => encrypted_data@.len() % 16 == 0
                && spec_cbc_decrypt(encrypted_data@, key@, iv@) is None,
        },
{
    match cbc_decrypt_bytes(encrypted_data.0.as_slice(), key.0.as_slice(), iv.0.as_slice()) {
        Some(p) => Ok(p),
        None => {
            if encrypted_data.0.len() % 16 != 0 {
                Err(CipherError::InvalidLength)
            } else {
                Err(CipherError::InvalidPadding)
            }
        },
    }
}

/// The outcome of decrypting one entry and reading it as text.
pub open spec fn spec_decrypt_str(data: Seq<u8>, key: Seq<u8>, iv: Seq<u8>) -> Result<Seq<char>, EntryError> {
    match spec_cbc_decrypt(data, key, iv) {
        None => Err(EntryError::Cipher(
            if data.len() % 16 != 0 {
                CipherError::InvalidLength
            } else {
                CipherError::InvalidPadding
            },
        )),
        Some(p) => match spec_utf8_decode(p) {
            None => Err(EntryError::Encoding),
            Some(cs) => Ok(cs),
        },
    }
}

/// Decrypt an entry and read the plaintext as UTF-8 text.
pub fn decrypt_str(encrypted_data: &EncryptedMsg, key: &Key, iv: &Iv) -> (r: Result<String, EntryError>)
    requires
        key.wf(),
        iv.wf(),
    ensures
        match r {
            Ok(s) => spec_decrypt_str(encrypted_data@, key@, iv@) == Ok::<Seq<char>, EntryError>(s@),
            Err(e) => spec_decrypt_str(encrypted_data@, key@, iv@) == Err::<Seq<char>, EntryError>(e),
        },
{
    match decrypt(encrypted_data, key, iv) {
        Err(e) => Err(EntryError::Cipher(e)),
        Ok(bytes) => match utf8_to_string(bytes) {
            None => Err(EntryError::Encoding),
            Some(s) => Ok(s),
        },
    }
}

} // verus!
