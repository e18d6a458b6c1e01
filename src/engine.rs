use aes_gcm::aead::{Aead, KeyInit};
use rand::RngCore;
use vstd::prelude::*;
use vstd::utf8::{decode_utf8, encode_utf8, valid_utf8};


use crate::key::{derive_key, sha256_of};

verus! {

/// Length in bytes of an AES-GCM nonce.
pub const NONCE_LEN: usize = 12;

/// Length in bytes of the authentication tag appended to each ciphertext.
pub const TAG_LEN: usize = 16;

/// Length in bytes of an AES-256 key.
pub const KEY_LEN: usize = 32;

/// AES-256-GCM encryption of `plain` under `key` and `nonce`, with no associated
/// data; `None` where the cipher refuses the input.
pub uninterp spec fn seal_of(key: Seq<u8>, nonce: Seq<u8>, plain: Seq<u8>) -> Option<Seq<u8>>;

/// AES-256-GCM authenticated decryption of `ct` under `key` and `nonce`; `None`
/// where the tag does not verify.
pub uninterp spec fn open_of(key: Seq<u8>, nonce: Seq<u8>, ct: Seq<u8>) -> Option<Seq<u8>>;

/// The text that `String::from_utf8_lossy` makes of a byte sequence.
pub uninterp spec fn utf8_lossy_of(b: Seq<u8>) -> Seq<char>;

/// Relies on KeyInit::new and Aead::encrypt of aes_gcm::Aes256Gcm: the result is
/// the ciphertext followed by the 16-byte tag, which decrypts back to the
/// plaintext under the same key and nonce; only a plaintext over 2^36 bytes is
/// refused. `Key::from_slice` and `Nonce::from_slice` need exact lengths.
#[verifier::external_body]
fn aead_seal(key: &[u8], nonce: &[u8], plain: &[u8]) -> (r: Option<Vec<u8>>)
    requires
        key@.len() == KEY_LEN,
        nonce@.len() == NONCE_LEN,
    ensures
        match r {
            Some(c) => {
                &&& seal_of(key@, nonce@, plain@) == Some(c@)
                &&& open_of(key@, nonce@, c@) == Some(plain@)
                &&& c@.len() == plain@.len() + TAG_LEN
            },
            None => seal_of(key@, nonce@, plain@) is None,
        },
        plain@.len() <= 0x10_0000_0000 ==> r is Some,
{
    let cipher = aes_gcm::Aes256Gcm::new(aes_gcm::Key::<aes_gcm::Aes256Gcm>::from_slice(key));
    cipher.encrypt(aes_gcm::Nonce::from_slice(nonce), plain).ok()
}

/// Relies on KeyInit::new and Aead::decrypt of aes_gcm::Aes256Gcm: it returns the
/// plaintext when the tag verifies and an error otherwise.
#[verifier::external_body]
fn aead_open(key: &[u8], nonce: &[u8], ct: &[u8]) -> (r: Option<Vec<u8>>)
    requires
        key@.len() == KEY_LEN,
        nonce@.len() == NONCE_LEN,
    ensures
        match r {
            Some(p) => open_of(key@, nonce@, ct@) == Some(p@),
            None => open_of(key@, nonce@, ct@) is None,
        },
{
    let cipher = aes_gcm::Aes256Gcm::new(aes_gcm::Key::<aes_gcm::Aes256Gcm>::from_slice(key));
    cipher.decrypt(aes_gcm::Nonce::from_slice(nonce), ct).ok()
}

/// Relies on rand's OsRng::try_fill_bytes: on success the 12 bytes come from the
/// operating system's secure random source. Nothing is known of their values.
#[verifier::external_body]
pub(crate) fn random_nonce() -> (r: Option<Vec<u8>>)
    ensures
        r matches Some(n) ==> n@.len() == NONCE_LEN,
{
    let mut n = [0u8; 12];
    match rand::rngs::OsRng.try_fill_bytes(&mut n) {
        Ok(()) => Some(n.to_vec()),
        Err(_) => None,
    }
}

/// Relies on String::from_utf8_lossy: valid UTF-8 is decoded unchanged.
#[verifier::external_body]
pub(crate) fn utf8_lossy(b: &[u8]) -> (r: String)
    ensures
        r@ == utf8_lossy_of(b@),
        valid_utf8(b@) ==> r@ == decode_utf8(b@),
{
    String::from_utf8_lossy(b).into_owned()
}

/// An authenticated cipher bound to one 32-byte symmetric key.
pub struct Engine {
    key: Vec<u8>,
}

impl View for Engine {
    type V = Seq<u8>;

    /// The key bytes.
    closed spec fn view(&self) -> Seq<u8> {
        self.key@
    }
}

impl Engine {
    /// The key has the cipher's length.
    pub closed spec fn wf(&self) -> bool {
        self.key@.len() == KEY_LEN
    }

    /// Builds the engine from raw key material; fails with `InvalidKey` unless it
    /// is exactly 32 bytes long.
    pub fn new(key: &[u8]) -> (r: Result<Engine, crate::error::Error>)
        ensures
            match r {
                Ok(e) => key@.len() == KEY_LEN && e@ == key@ && e.wf(),
                Err(err) => key@.len() != KEY_LEN && err == crate::error::Error::InvalidKey,
            },
    {
        if key.len() != KEY_LEN {
            return Err(crate::error::Error::InvalidKey);
        }
        let mut k: Vec<u8> = Vec::new();
        k.extend_from_slice(key);
        assert(k@ =~= key@);
        Ok(Engine { key: k })
    }

    /// Builds the engine from a passphrase, through its SHA-256 digest.
    pub fn from_passphrase(passphrase: &str) -> (r: Engine)
        ensures
            r@ == sha256_of(encode_utf8(passphrase@)),
            r.wf(),
    {
        let k = derive_key(passphrase);
        Engine { key: k }
    }

    /// Encrypts `plain` under `nonce`: `None` only where the cipher refuses it.
    pub fn seal(&self, nonce: &[u8], plain: &[u8]) -> (r: Option<Vec<u8>>)
        requires
            self.wf(),
            nonce@.len() == NONCE_LEN,
        ensures
            match r {
                Some(c) => seal_of(self@, nonce@, plain@) == Some(c@)
                    && open_of(self@, nonce@, c@) == Some(plain@)
                    && c@.len() == plain@.len() + TAG_LEN,
                None => seal_of(self@, nonce@, plain@) is None,
            },
            plain@.len() <= 0x10_0000_0000 ==> r is Some,
    {
        aead_seal(self.key.as_slice(), nonce, plain)
    }

    /// Authenticates and decrypts `ct` under `nonce`; `DecryptionFailed` exactly
    /// when the tag does not verify.
    pub fn open(&self, nonce: &[u8], ct: &[u8]) -> (r: Result<Vec<u8>, crate::error::Error>)
        requires
            self.wf(),
            nonce@.len() == NONCE_LEN,
        ensures
            match r {
                Ok(p) => open_of(self@, nonce@, ct@) == Some(p@),
                Err(e) => open_of(self@, nonce@, ct@) is None && e == crate::error::Error::DecryptionFailed,
            },
    {
        match aead_open(self.key.as_slice(), nonce, ct) {
            Some(p) => Ok(p),
            None => Err(crate::error::Error::DecryptionFailed),
        }
    }
}

} // verus!
