use base64::Engine as _;
use vstd::prelude::*;

use crate::engine::NONCE_LEN;


verus! {

/// Standard padded base64 encoding of a byte sequence.
pub uninterp spec fn base64_encoded(b: Seq<u8>) -> Seq<char>;

/// Standard padded base64 decoding of a text; `None` where it is not base64.
pub uninterp spec fn base64_decoded(s: Seq<char>) -> Option<Seq<u8>>;

#[verifier::external_type_specification]
#[verifier::external_body]
pub struct ExDecodeError(base64::DecodeError);

/// Relies on base64's STANDARD engine `encode`: decoding its output gives the
/// input back.
#[verifier::external_body]
fn b64_encode(b: &[u8]) -> (r: String)
    ensures
        r@ == base64_encoded(b@),
        base64_decoded(r@) == Some(b@),
{
    base64::engine::general_purpose::STANDARD.encode(b)
}

/// Relies on base64's STANDARD engine `decode`.
#[verifier::external_body]
fn b64_decode(s: &str) -> (r: Result<Vec<u8>, base64::DecodeError>)
    ensures
        match r {
            Ok(b) => base64_decoded(s@) == Some(b@),
            Err(_) => base64_decoded(s@) is None,
        },
{
    base64::engine::general_purpose::STANDARD.decode(s)
}

/// The wire line of one message: base64 of the nonce followed by the ciphertext.
pub open spec fn wire_of(nonce: Seq<u8>, ct: Seq<u8>) -> Seq<char> {
    base64_encoded(nonce + ct)
}

/// The nonce and ciphertext that a wire line carries: the decoded bytes split
/// at the nonce length, or `None` where the line is not base64 or too short.
pub open spec fn wire_parts(line: Seq<char>) -> Option<(Seq<u8>, Seq<u8>)> {
    match base64_decoded(line) {
        Some(b) => if b.len() < NONCE_LEN {
            None
        } else {
            Some((b.subrange(0, NONCE_LEN as int), b.subrange(NONCE_LEN as int, b.len() as int)))
        },
        None => None,
    }
}

/// Frames a nonce and a ciphertext as one printable line.
pub fn encode_line(nonce: &[u8], ct: &[u8]) -> (r: String)
    ensures
        r@ == wire_of(nonce@, ct@),
        base64_decoded(r@) == Some(nonce@ + ct@),
{
    let mut combined: Vec<u8> = Vec::new();
    combined.extend_from_slice(nonce);
    combined.extend_from_slice(ct);
    assert(combined@ =~= nonce@ + ct@);
    b64_encode(combined.as_slice())
}

/// Parses a wire line into its nonce and ciphertext; `InvalidData` where it is
/// not base64 or decodes to fewer than 12 bytes.
pub fn decode_line(line: &str) -> (r: Result<(Vec<u8>, Vec<u8>), crate::error::Error>)
    ensures
        match r {
            Ok((n, c)) => wire_parts(line@) == Some((n@, c@)),
            Err(e) => wire_parts(line@) is None && e == crate::error::Error::InvalidData,
        },
{
    match b64_decode(line) {
        Ok(b) => {
            if b.len() < NONCE_LEN {
                Err(crate::error::Error::InvalidData)
            } else {
                let mut nonce = b;
                let ct = nonce.split_off(NONCE_LEN);
                Ok((nonce, ct))
            }
        },
        Err(_) => Err(crate::error::Error::InvalidData),
    }
}

} // verus!
