use vstd::prelude::*;
use vstd::utf8::{decode_utf8, encode_utf8, valid_utf8};

use crate::codec::{base64_decoded, decode_line, encode_line, wire_of, wire_parts};
use crate::engine::{random_nonce, seal_of, open_of, utf8_lossy, utf8_lossy_of, Engine, NONCE_LEN};
use crate::key::sha256_of;

verus! {

broadcast use vstd::utf8::encode_utf8_valid_utf8, vstd::utf8::encode_utf8_decode_utf8;

/// Capacity of the queue between the producers and the writer.
pub const QUEUE_SIZE: usize = 10_000;

/// Severity of a log event, from the most to the least severe.
#[derive(Clone, Copy, Debug, PartialEq, Eq, Structural)]
pub enum Level {
    Error,
    Warn,
    Info,
    Debug,
    Trace,
}

/// The level's name as it appears in a log line, padded to five characters.
pub open spec fn level_label(l: Level) -> Seq<char> {
    match l {
        Level::Error => seq!['E', 'R', 'R', 'O', 'R'],
        Level::Warn => seq!['W', 'A', 'R', 'N', ' '],
        Level::Info => seq!['I', 'N', 'F', 'O', ' '],
        Level::Debug => seq!['D', 'E', 'B', 'U', 'G'],
        Level::Trace => seq!['T', 'R', 'A', 'C', 'E'],
    }
}

impl Level {
    /// The padded name of the level.
    pub fn label(&self) -> (r: &'static str)
        ensures
            r@ == level_label(*self),
    {
        match self {
            Level::Error => {
                proof { reveal_strlit("ERROR"); }
                "ERROR"
            },
            Level::Warn => {
                proof { reveal_strlit("WARN "); }
                "WARN "
            },
            Level::Info => {
                proof { reveal_strlit("INFO "); }
                "INFO "
            },
            Level::Debug => {
                proof { reveal_strlit("DEBUG"); }
                "DEBUG"
            },
            Level::Trace => {
                proof { reveal_strlit("TRACE"); }
                "TRACE"
            },
        }
    }

    /// Every level up to and including the most verbose one is accepted.
    pub fn enabled(&self) -> (r: bool)
        ensures
            r,
    {
        true
    }
}

/// The text of one log line: `timestamp [LEVEL] message`.
pub open spec fn entry_of(timestamp: Seq<char>, level: Level, message: Seq<char>) -> Seq<char> {
    timestamp + seq![' ', '['] + level_label(level) + seq![']', ' '] + message
}

/// Formats a log event as `timestamp [LEVEL] message`.
pub fn format_entry(timestamp: &str, level: Level, message: &str) -> (r: String)
    ensures
        r@ == entry_of(timestamp@, level, message@),
{
    let mut out = timestamp.to_owned();
    proof { reveal_strlit(" ["); reveal_strlit("] "); }
    out.append(" [");
    out.append(level.label());
    out.append("] ");
    out.append(message);
    out
}

/// What the writer is handed: a formatted line, or the signal to stop.
pub enum LogMessage {
    Entry(String),
    Shutdown,
}

/// What the writer does with one message.
pub enum WorkerAction {
    /// Append this wire line, then a newline, and flush.
    Write(String),
    /// Drop the message: it could not be sealed.
    Skip,
    /// Leave the loop.
    Stop,
}

/// The text that a decrypted payload is read as: its UTF-8 decoding, with
/// invalid sequences replaced.
pub open spec fn text_of(b: Seq<u8>) -> Seq<char> {
    if valid_utf8(b) {
        decode_utf8(b)
    } else {
        utf8_lossy_of(b)
    }
}

/// What one wire line decrypts to under `key`.
pub open spec fn line_plain(key: Seq<u8>, line: Seq<char>) -> Result<Seq<char>, crate::error::Error> {
    match wire_parts(line) {
        None => Err(crate::error::Error::InvalidData),
        Some((n, c)) => match open_of(key, n, c) {
            None => Err(crate::error::Error::DecryptionFailed),
            Some(p) => Ok(text_of(p)),
        },
    }
}

/// What a sequence of wire lines decrypts to under `key`: each line's text
/// followed by a newline, or the error of the first line that fails.
pub open spec fn lines_plain(key: Seq<u8>, lines: Seq<Seq<char>>) -> Result<Seq<char>, crate::error::Error>
    decreases lines.len(),
{
    if lines.len() == 0 {
        Ok(Seq::empty())
    } else {
        match lines_plain(key, lines.drop_last()) {
            Err(e) => Err(e),
            Ok(acc) => match line_plain(key, lines.last()) {
                Err(e) => Err(e),
                Ok(p) => Ok(acc + p + seq!['\n']),
            },
        }
    }
}

/// Each text followed by a newline, concatenated.
pub open spec fn joined(texts: Seq<Seq<char>>) -> Seq<char>
    decreases texts.len(),
{
    if texts.len() == 0 {
        Seq::empty()
    } else {
        joined(texts.drop_last()) + texts.last() + seq!['\n']
    }
}

/// The key that a passphrase stands for.
pub open spec fn key_of(passphrase: Seq<char>) -> Seq<u8> {
    sha256_of(encode_utf8(passphrase))
}

/// An error in a prefix of the lines is the error of all of them.
proof fn lemma_error_persists(key: Seq<u8>, lines: Seq<Seq<char>>, j: int)
    requires
        0 <= j <= lines.len(),
        lines_plain(key, lines.subrange(0, j)) is Err,
    ensures
        lines_plain(key, lines) == lines_plain(key, lines.subrange(0, j)),
    decreases lines.len() - j,
{
    if j < lines.len() {
        let next = lines.subrange(0, j + 1);
        assert(next.drop_last() =~= lines.subrange(0, j));
        lemma_error_persists(key, lines, j + 1);
    } else {
        assert(lines.subrange(0, j) =~= lines);
    }
}

impl Engine {
    /// Seals `text` under `nonce` and frames it as a wire line; `None` only where
    /// the cipher refuses the text.
    pub fn seal_line(&self, nonce: &[u8], text: &str) -> (r: Option<String>)
        requires
            self.wf(),
            nonce@.len() == NONCE_LEN,
        ensures
            match r {
                Some(line) => seal_of(self@, nonce@, encode_utf8(text@)) matches Some(c)
                    && line@ == wire_of(nonce@, c),
                None => seal_of(self@, nonce@, encode_utf8(text@)) is None,
            },
            r matches Some(line) ==> line_plain(self@, line@) == Ok::<Seq<char>, crate::error::Error>(text@),
            encode_utf8(text@).len() <= 0x10_0000_0000 ==> r is Some,
    {
        let plain = text.as_bytes();
        match self.seal(nonce, plain) {
            Some(c) => {
                let line = encode_line(nonce, c.as_slice());
                proof {
                    let b = nonce@ + c@;
                    assert(b.subrange(0, NONCE_LEN as int) =~= nonce@);
                    assert(b.subrange(NONCE_LEN as int, b.len() as int) =~= c@);
                }
                Some(line)
            },
            None => None,
        }
    }

    /// Decides what the writer does with one message: a shutdown stops it; an
    /// entry is sealed under a fresh random nonce, or skipped where no nonce
    /// could be drawn or the cipher refuses it.
    pub fn handle(&self, msg: LogMessage) -> (r: WorkerAction)
        requires
            self.wf(),
        ensures
            msg is Shutdown ==> r is Stop,
            msg matches LogMessage::Entry(text) ==> match r {
                WorkerAction::Write(line) => line_plain(self@, line@) == Ok::<Seq<char>, crate::error::Error>(text@)
                    && exists|n: Seq<u8>, c: Seq<u8>| n.len() == NONCE_LEN
                        && seal_of(self@, n, encode_utf8(text@)) == Some(c)
                        && line@ == wire_of(n, c),
                WorkerAction::Skip => true,
                WorkerAction::Stop => false,
            },
    {
        match msg {
            LogMessage::Shutdown => WorkerAction::Stop,
            LogMessage::Entry(text) => match random_nonce() {
                Some(nonce) => match self.seal_line(nonce.as_slice(), text.as_str()) {
                    Some(line) => WorkerAction::Write(line),
                    None => WorkerAction::Skip,
                },
                None => WorkerAction::Skip,
            },
        }
    }

    /// Decrypts one wire line.
    pub fn open_line(&self, line: &str) -> (r: Result<String, crate::error::Error>)
        requires
            self.wf(),
        ensures
            match r {
                Ok(s) => line_plain(self@, line@) == Ok::<Seq<char>, crate::error::Error>(s@),
                Err(e) => line_plain(self@, line@) == Err::<Seq<char>, crate::error::Error>(e),
            },
    {
        let (nonce, ct) = decode_line(line)?;
        let p = self.open(nonce.as_slice(), ct.as_slice())?;
        Ok(utf8_lossy(p.as_slice()))
    }

    /// Decrypts a sequence of wire lines, all or nothing: each line's text and a
    /// newline, or the error of the first line that fails.
    pub fn open_lines(&self, lines: &Vec<String>) -> (r: Result<String, crate::error::Error>)
        requires
            self.wf(),
        ensures
            match r {
                Ok(s) => lines_plain(self@, lines@.map_values(|l: String| l@)) == Ok::<Seq<char>, crate::error::Error>(s@),
                Err(e) => lines_plain(self@, lines@.map_values(|l: String| l@)) == Err::<Seq<char>, crate::error::Error>(e),
            },
    {
        let ghost views = lines@.map_values(|l: String| l@);
        let mut out = String::new();
        let mut i: usize = 0;
        while i < lines.len()
            invariant
                self.wf(),
                i <= lines@.len(),
                views == lines@.map_values(|l: String| l@),
                lines_plain(self@, views.subrange(0, i as int)) == Ok::<Seq<char>, crate::error::Error>(out@),
            decreases lines@.len() - i,
        {
            let p = self.open_line(lines[i].as_str());
            proof {
                assert(views.subrange(0, i + 1).drop_last() =~= views.subrange(0, i as int));
                assert(views.subrange(0, i + 1).last() == lines@[i as int]@);
            }
            match p {
                Ok(text) => {
                    let ghost before = out@;
                    proof {
                        reveal_strlit("\n");
                        assert("\n"@ =~= seq!['\n']);
                    }
                    out.append(text.as_str());
                    out.append("\n");
                    assert(out@ =~= before + text@ + seq!['\n']);
                },
                Err(e) => {
                    proof { lemma_error_persists(self@, views, i + 1); }
                    return Err(e);
                },
            }
            i = i + 1;
        }
        assert(views.subrange(0, i as int) =~= views);
        Ok(out)
    }
}

/// Decrypts the lines of an encrypted log under the key derived from
/// `passphrase`: all lines or the first error. No lines give the empty text.
pub fn decrypt_lines(passphrase: &str, lines: &Vec<String>) -> (r: Result<String, crate::error::Error>)
    ensures
        match r {
            Ok(s) => lines_plain(key_of(passphrase@), lines@.map_values(|l: String| l@)) == Ok::<Seq<char>, crate::error::Error>(s@),
            Err(e) => lines_plain(key_of(passphrase@), lines@.map_values(|l: String| l@)) == Err::<Seq<char>, crate::error::Error>(e),
        },
        lines@.len() == 0 ==> (r matches Ok(s) && s@.len() == 0),
{
    let engine = Engine::from_passphrase(passphrase);
    engine.open_lines(lines)
}

/// Lines that each decrypt under `key` to the matching text decrypt together,
/// in order, to those texts each followed by a newline.
pub proof fn lemma_round_trip(key: Seq<u8>, texts: Seq<Seq<char>>, lines: Seq<Seq<char>>)
    requires
        lines.len() == texts.len(),
        forall|i: int| 0 <= i < lines.len() ==> line_plain(key, #[trigger] lines[i]) == Ok::<Seq<char>, crate::error::Error>(texts[i]),
    ensures
        lines_plain(key, lines) == Ok::<Seq<char>, crate::error::Error>(joined(texts)),
    decreases lines.len(),
{
    if lines.len() > 0 {
        let n = lines.len() - 1;
        assert forall|i: int| 0 <= i < lines.drop_last().len() implies line_plain(key, #[trigger] lines.drop_last()[i]) == Ok::<Seq<char>, crate::error::Error>(texts.drop_last()[i]) by {
            assert(lines.drop_last()[i] == lines[i]);
        }
        lemma_round_trip(key, texts.drop_last(), lines.drop_last());
        assert(line_plain(key, lines[n]) == Ok::<Seq<char>, crate::error::Error>(texts[n]));
    }
}

/// Where every line before line `i` decrypts and line `i` does not, decrypting
/// all of them fails with line `i`'s error.
pub proof fn lemma_first_failure(key: Seq<u8>, lines: Seq<Seq<char>>, i: int)
    requires
        0 <= i < lines.len(),
        forall|j: int| 0 <= j < i ==> line_plain(key, #[trigger] lines[j]) is Ok,
        line_plain(key, lines[i]) is Err,
    ensures
        lines_plain(key, lines) == Err::<Seq<char>, crate::error::Error>(line_plain(key, lines[i])->Err_0),
{
    lemma_prefix_decrypts(key, lines, i);
    let upto = lines.subrange(0, i + 1);
    assert(upto.drop_last() =~= lines.subrange(0, i));
    assert(upto.last() == lines[i]);
    lemma_error_persists(key, lines, i + 1);
}

/// A prefix of lines that each decrypt decrypts as a whole.
proof fn lemma_prefix_decrypts(key: Seq<u8>, lines: Seq<Seq<char>>, i: int)
    requires
        0 <= i <= lines.len(),
        forall|j: int| 0 <= j < i ==> line_plain(key, #[trigger] lines[j]) is Ok,
    ensures
        lines_plain(key, lines.subrange(0, i)) is Ok,
    decreases i,
{
    if i > 0 {
        lemma_prefix_decrypts(key, lines, i - 1);
        assert(lines.subrange(0, i).drop_last() =~= lines.subrange(0, i - 1));
        assert(lines.subrange(0, i).last() == lines[i - 1]);
    }
}

/// A line that is not base64, or decodes to fewer bytes than a nonce, makes
/// decryption fail with `InvalidData` where every line before it decrypts.
pub proof fn lemma_malformed_line(key: Seq<u8>, lines: Seq<Seq<char>>, i: int)
    requires
        0 <= i < lines.len(),
        forall|j: int| 0 <= j < i ==> line_plain(key, #[trigger] lines[j]) is Ok,
        base64_decoded(lines[i]) matches Some(b) ==> b.len() < NONCE_LEN,
    ensures
        lines_plain(key, lines) == Err::<Seq<char>, crate::error::Error>(crate::error::Error::InvalidData),
{
    lemma_first_failure(key, lines, i);
}

/// A line whose nonce and ciphertext do not authenticate under the key makes
/// decryption fail with `DecryptionFailed` where every line before it decrypts.
pub proof fn lemma_unauthenticated_line(key: Seq<u8>, lines: Seq<Seq<char>>, i: int)
    requires
        0 <= i < lines.len(),
        forall|j: int| 0 <= j < i ==> line_plain(key, #[trigger] lines[j]) is Ok,
        wire_parts(lines[i]) matches Some((n, c)) && open_of(key, n, c) is None,
    ensures
        lines_plain(key, lines) == Err::<Seq<char>, crate::error::Error>(crate::error::Error::DecryptionFailed),
{
    lemma_first_failure(key, lines, i);
}

} // verus!
