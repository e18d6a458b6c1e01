//! Encrypted at-rest logging. Each log line is sealed with AES-256-GCM under a
//! key derived from a passphrase by SHA-256, under a fresh random nonce, and
//! framed as one base64 line of nonce and ciphertext. Decryption reads such
//! lines back, all or nothing.

mod codec;
mod engine;
mod error;
mod key;
mod logger;

pub use codec::{base64_decoded, base64_encoded, decode_line, encode_line, wire_of, wire_parts};
pub use engine::{open_of, seal_of, utf8_lossy_of, Engine, KEY_LEN, NONCE_LEN, TAG_LEN};
pub use error::Error;
pub use key::{derive_key, sha256_of};
pub use logger::{
    decrypt_lines, entry_of, format_entry, joined, key_of, lemma_first_failure,
    lemma_malformed_line, lemma_round_trip, lemma_unauthenticated_line, level_label, line_plain,
    lines_plain, text_of, Level, LogMessage, WorkerAction, QUEUE_SIZE,
};
