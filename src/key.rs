use sha2::Digest;
use vstd::prelude::*;
use vstd::utf8::encode_utf8;

verus! {

/// The SHA-256 digest of a byte sequence.
pub uninterp spec fn sha256_of(b: Seq<u8>) -> Seq<u8>;

/// Relies on sha2::Sha256::digest: it hashes the bytes into a 32-byte digest.
#[verifier::external_body]
fn sha256(b: &[u8]) -> (r: Vec<u8>)
    ensures
        r@ == sha256_of(b@),
        r@.len() == 32,
{
    sha2::Sha256::digest(b).to_vec()
}

/// Derives the 32-byte symmetric key from a passphrase: one SHA-256 pass over
/// its UTF-8 bytes, no salt.
pub fn derive_key(passphrase: &str) -> (r: Vec<u8>)
    ensures
        r@ == sha256_of(encode_utf8(passphrase@)),
        r@.len() == 32,
{
    sha256(passphrase.as_bytes())
}

} // verus!
