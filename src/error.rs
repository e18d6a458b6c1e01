use vstd::prelude::*;

verus! {

/// What can go wrong while setting up a logger or reading an encrypted log back.
#[derive(Debug, PartialEq, Eq)]
pub enum Error {
    /// A filesystem operation failed; the text describes it.
    Io(String),
    /// Key material of the wrong size reached the cipher.
    InvalidKey,
    /// A line of the log is not base64, or is too short to hold a nonce.
    InvalidData,
    /// A line did not authenticate under the key.
    DecryptionFailed,
    /// Reserved: no key was supplied.
    MissingKey,
}

} // verus!
