use secure_log::{
    decode_line, decrypt_lines, derive_key, encode_line, format_entry, Engine, Error, Level,
    LogMessage, WorkerAction,
};

fn hex(b: &[u8]) -> String {
    b.iter().map(|x| format!("{:02x}", x)).collect()
}

fn seal_entry(engine: &Engine, text: &str) -> String {
    match engine.handle(LogMessage::Entry(text.to_string())) {
        WorkerAction::Write(line) => line,
        _ => panic!("entry was not sealed"),
    }
}

#[test]
fn derive_key_is_sha256_of_passphrase() {
    let k = derive_key("abc");
    assert_eq!(
        hex(&k),
        "ba7816bf8f01cfea414140de5dae2223b00361a396177a9cb410ff61f20015ad"
    );
    assert_eq!(derive_key("").len(), 32);
}

#[test]
fn engine_needs_a_32_byte_key() {
    assert!(matches!(Engine::new(&[0u8; 31]), Err(Error::InvalidKey)));
    assert!(matches!(Engine::new(&[0u8; 33]), Err(Error::InvalidKey)));
    assert!(Engine::new(&[0u8; 32]).is_ok());
}

#[test]
fn seal_matches_known_aes_gcm_vector() {
    let engine = Engine::new(&[0u8; 32]).unwrap();
    let ct = engine.seal(&[0u8; 12], &[]).unwrap();
    assert_eq!(hex(&ct), "530f8afbc74536b9a963b4f1c4cb738b");
    let ct = engine.seal(&[0u8; 12], &[0u8; 16]).unwrap();
    assert_eq!(
        hex(&ct),
        "cea7403d4d606b6e074ec5d3baf39d18d0d1c8a799996bf0265b98b5d48ab919"
    );
    assert_eq!(engine.open(&[0u8; 12], &ct).unwrap(), vec![0u8; 16]);
}

#[test]
fn open_rejects_a_flipped_bit() {
    let engine = Engine::new(&[7u8; 32]).unwrap();
    let mut ct = engine.seal(&[1u8; 12], b"hello").unwrap();
    assert_eq!(ct.len(), 5 + 16);
    ct[0] ^= 1;
    assert_eq!(engine.open(&[1u8; 12], &ct), Err(Error::DecryptionFailed));
}

#[test]
fn encode_line_is_base64_of_nonce_then_ciphertext() {
    let line = encode_line(&[0u8; 12], &[1, 2, 3]);
    assert_eq!(line, "AAAAAAAAAAAAAAAAAQID");
    let (n, c) = decode_line(&line).unwrap();
    assert_eq!(n, vec![0u8; 12]);
    assert_eq!(c, vec![1, 2, 3]);
}

#[test]
fn decode_line_rejects_bad_base64_and_short_lines() {
    assert_eq!(decode_line("not base64!!"), Err(Error::InvalidData));
    assert_eq!(decode_line("AAAA"), Err(Error::InvalidData));
    let (n, c) = decode_line("AAAAAAAAAAAAAAAA").unwrap();
    assert_eq!(n.len(), 12);
    assert!(c.is_empty());
}

#[test]
fn format_entry_pads_the_level() {
    assert_eq!(
        format_entry("2024-01-02 03:04:05.678", Level::Error, "boom"),
        "2024-01-02 03:04:05.678 [ERROR] boom"
    );
    assert_eq!(format_entry("t", Level::Warn, "w"), "t [WARN ] w");
    assert_eq!(format_entry("t", Level::Info, "i"), "t [INFO ] i");
    assert_eq!(format_entry("t", Level::Debug, "d"), "t [DEBUG] d");
    assert_eq!(format_entry("t", Level::Trace, ""), "t [TRACE] ");
}

#[test]
fn every_level_is_enabled() {
    for l in [Level::Error, Level::Warn, Level::Info, Level::Debug, Level::Trace] {
        assert!(l.enabled());
        assert_eq!(l.label().len(), 5);
    }
}

#[test]
fn shutdown_stops_the_writer() {
    let engine = Engine::from_passphrase("k");
    assert!(matches!(engine.handle(LogMessage::Shutdown), WorkerAction::Stop));
}

#[test]
fn seal_line_round_trips_through_open_line() {
    let engine = Engine::from_passphrase("pass");
    let line = engine.seal_line(&[9u8; 12], "héllo wörld").unwrap();
    assert_eq!(engine.open_line(&line).unwrap(), "héllo wörld");
    let (n, c) = decode_line(&line).unwrap();
    assert_eq!(n, vec![9u8; 12]);
    assert_eq!(c.len(), "héllo wörld".len() + 16);
}

#[test]
fn round_trip_of_several_lines_keeps_order() {
    let engine = Engine::from_passphrase("pw");
    let texts = ["first", "second", "", "fourth line"];
    let lines: Vec<String> = texts.iter().map(|t| seal_entry(&engine, t)).collect();
    assert_eq!(
        decrypt_lines("pw", &lines).unwrap(),
        "first\nsecond\n\nfourth line\n"
    );
}

#[test]
fn wrong_key_fails_every_line() {
    let engine = Engine::from_passphrase("right");
    for t in ["a", "bb", "ccc"] {
        let line = seal_entry(&engine, t);
        assert_eq!(decrypt_lines("wrong", &vec![line]), Err(Error::DecryptionFailed));
    }
}

#[test]
fn nonces_are_not_repeated() {
    let engine = Engine::from_passphrase("nonce-test");
    let mut seen = std::collections::HashSet::new();
    for i in 0..2000 {
        let line = seal_entry(&engine, &format!("message {}", i));
        let (n, _) = decode_line(&line).unwrap();
        assert!(seen.insert(n));
    }
}

#[test]
fn malformed_lines_are_rejected() {
    let engine = Engine::from_passphrase("k");
    let good = seal_entry(&engine, "ok");
    assert_eq!(
        decrypt_lines("k", &vec![good.clone(), "%%%".to_string()]),
        Err(Error::InvalidData)
    );
    assert_eq!(
        decrypt_lines("k", &vec![good.clone(), "AAAA".to_string()]),
        Err(Error::InvalidData)
    );
    let mut bytes = {
        let (n, c) = decode_line(&good).unwrap();
        let mut b = n;
        b.extend_from_slice(&c);
        b
    };
    let last = bytes.len() - 1;
    bytes[last] ^= 0x80;
    let flipped = encode_line(&bytes[..12], &bytes[12..]);
    assert_eq!(
        decrypt_lines("k", &vec![good, flipped]),
        Err(Error::DecryptionFailed)
    );
}

#[test]
fn first_failing_line_decides_the_error() {
    let engine = Engine::from_passphrase("k");
    let other = Engine::from_passphrase("other");
    let foreign = seal_entry(&other, "x");
    assert_eq!(
        decrypt_lines("k", &vec![seal_entry(&engine, "a"), foreign, "!!".to_string()]),
        Err(Error::DecryptionFailed)
    );
}

#[test]
fn empty_log_decrypts_to_empty_text() {
    assert_eq!(decrypt_lines("anything", &vec![]), Ok(String::new()));
}

#[test]
fn invalid_utf8_payload_is_decoded_lossily() {
    let engine = Engine::from_passphrase("k");
    let nonce = [3u8; 12];
    let ct = engine.seal(&nonce, &[b'a', 0xff, b'b']).unwrap();
    let line = encode_line(&nonce, &ct);
    assert_eq!(decrypt_lines("k", &vec![line]).unwrap(), "a\u{fffd}b\n");
}

#[test]
fn error_level_scenario() {
    let key = "super-secret-key-for-testing";
    let engine = Engine::from_passphrase(key);
    let entry = format_entry("2024-05-06 07:08:09.010", Level::Error, "This is an error message log");
    let line = seal_entry(&engine, &entry);
    assert!(!line.contains('\n'));
    let lines = vec![line];
    let text = decrypt_lines(key, &lines).unwrap();
    assert!(text.contains("[ERROR] This is an error message log"));
    assert!(text.starts_with("2024-05-06 07:08:09.010 "));
    assert_eq!(text.lines().count(), 1);
    assert_eq!(decrypt_lines("wrong-key", &lines), Err(Error::DecryptionFailed));
}
