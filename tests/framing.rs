use nautilus_socket::config::{ConfigError, Mode, SocketConfig, DEFAULT_RECONNECT_TIMEOUT_SECS};
use nautilus_socket::decoder::FrameDecoder;
use nautilus_socket::framing::{encode_frame, find_suffix, matches_at};

fn drain_all(dec: &mut FrameDecoder) -> Vec<Vec<u8>> {
    dec.drain_frames()
}

#[test]
fn find_suffix_earliest_occurrence() {
    assert_eq!(find_suffix(b"ab\r\ncd\r\n", b"\r\n"), Some(2));
    assert_eq!(find_suffix(b"abcd", b"\r\n"), None);
    assert_eq!(find_suffix(b"", b"\r\n"), None);
    assert_eq!(find_suffix(b"\r", b"\r\n"), None);
    assert_eq!(find_suffix(b"\r\n", b"\r\n"), Some(0));
    assert_eq!(find_suffix(b"aaa", b"aa"), Some(0));
}

#[test]
fn matches_at_compares_window() {
    assert!(matches_at(b"xy\r\n", b"\r\n", 2));
    assert!(!matches_at(b"xy\r\n", b"\r\n", 1));
}

#[test]
fn encode_frame_appends_suffix() {
    assert_eq!(encode_frame(b"Hello", b"\r\n"), b"Hello\r\n".to_vec());
    assert_eq!(encode_frame(b"", b"\r\n"), b"\r\n".to_vec());
}

#[test]
fn decoder_echo_round_trip() {
    let mut dec = FrameDecoder::new(b"\r\n".to_vec());
    let mut wire = encode_frame(b"Hello", b"\r\n");
    wire.extend_from_slice(&encode_frame(b"World", b"\r\n"));
    dec.extend(&wire);
    let frames = drain_all(&mut dec);
    assert_eq!(frames, vec![b"Hello".to_vec(), b"World".to_vec()]);
    assert_eq!(dec.next_frame(), None);
}

#[test]
fn decoder_keeps_partial_frame() {
    let mut dec = FrameDecoder::new(b"\r\n".to_vec());
    dec.extend(b"abc\r\nde");
    assert_eq!(dec.next_frame(), Some(b"abc".to_vec()));
    assert_eq!(dec.next_frame(), None);
    dec.extend(b"f\r\n");
    assert_eq!(dec.next_frame(), Some(b"def".to_vec()));
    assert_eq!(dec.next_frame(), None);
}

#[test]
fn decoder_suffix_across_reads() {
    let mut dec = FrameDecoder::new(b"\r\n".to_vec());
    dec.extend(b"ping\r");
    assert!(drain_all(&mut dec).is_empty());
    dec.extend(b"\npong\r\n");
    assert_eq!(drain_all(&mut dec), vec![b"ping".to_vec(), b"pong".to_vec()]);
}

#[test]
fn decoder_consecutive_suffixes_give_empty_frames() {
    let mut dec = FrameDecoder::new(b"\r\n".to_vec());
    dec.extend(b"\r\n\r\nx\r\n");
    assert_eq!(drain_all(&mut dec), vec![Vec::new(), Vec::new(), b"x".to_vec()]);
}

#[test]
fn decoder_multi_byte_suffix() {
    let mut dec = FrameDecoder::new(b"END".to_vec());
    dec.extend(b"oneENDtwoEN");
    assert_eq!(drain_all(&mut dec), vec![b"one".to_vec()]);
    dec.extend(b"Dthree");
    assert_eq!(drain_all(&mut dec), vec![b"two".to_vec()]);
}

#[test]
fn frames_never_end_with_suffix() {
    let mut dec = FrameDecoder::new(b"\r\n".to_vec());
    dec.extend(b"a\r\r\nb\n\r\n\r\n");
    let frames = drain_all(&mut dec);
    assert_eq!(frames, vec![b"a\r".to_vec(), b"b\n".to_vec(), Vec::new()]);
    for f in frames {
        assert!(!f.ends_with(b"\r\n"));
    }
}

#[test]
fn config_rejects_empty_suffix() {
    let r = SocketConfig::new("127.0.0.1:1".to_string(), Mode::Plain, Vec::new(), None, None, None);
    assert_eq!(r.err(), Some(ConfigError::EmptySuffix));
}

#[test]
fn config_defaults_and_heartbeat_message() {
    let c = SocketConfig::new(
        "127.0.0.1:1".to_string(),
        Mode::Plain,
        b"\r\n".to_vec(),
        Some((1, b"ping".to_vec())),
        None,
        Some(2),
    )
    .unwrap();
    assert!(c.validate().is_ok());
    assert_eq!(c.reconnect_timeout(), DEFAULT_RECONNECT_TIMEOUT_SECS);
    assert_eq!(c.reconnect_timeout(), 30);
    assert_eq!(c.heartbeat_message(), Some((1, b"ping\r\n".to_vec())));
    assert_eq!(c.frame(b"Hello"), b"Hello\r\n".to_vec());
    let mut dec = c.decoder();
    dec.extend(b"ping\r\n");
    assert_eq!(dec.next_frame(), Some(b"ping".to_vec()));
    assert_eq!(dec.suffix_bytes(), b"\r\n");
}

#[test]
fn config_explicit_timeout_and_no_heartbeat() {
    let mut c = SocketConfig::new("h:1".to_string(), Mode::Tls, b";".to_vec(), None, Some(7), None).unwrap();
    assert_eq!(c.reconnect_timeout(), 7);
    assert_eq!(c.heartbeat_message(), None);
    c.suffix = Vec::new();
    assert_eq!(c.validate(), Err(ConfigError::EmptySuffix));
}
