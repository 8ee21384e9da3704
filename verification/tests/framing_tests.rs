use load_bank::framing::{
    build_and_escape, crc8_atm, escape_byte, feed_bytes, unescape_bytes, FrameConfig, ParseState,
};

fn cfg() -> FrameConfig {
    FrameConfig {
        start: 0x01,
        stop: 0x00,
        esc: 0x02,
        esc_xor: 0x20,
        crc8_poly: 0x07,
        crc_init: 0x00,
        crc_final_xor: 0x00,
    }
}

#[test]
fn crc8_atm_check_value() {
    assert_eq!(crc8_atm(b"123456789"), 0xF4);
}

#[test]
fn crc8_atm_empty_is_zero() {
    assert_eq!(crc8_atm(&[]), 0x00);
}

#[test]
fn escape_leaves_plain_bytes() {
    let c = cfg();
    let mut out = Vec::new();
    escape_byte(0x41, &c, &mut out);
    assert_eq!(out, vec![0x41]);
}

#[test]
fn escape_encodes_delimiters_and_escape() {
    let c = cfg();
    let mut out = Vec::new();
    escape_byte(0x01, &c, &mut out);
    escape_byte(0x00, &c, &mut out);
    escape_byte(0x02, &c, &mut out);
    assert_eq!(out, vec![0x02, 0x21, 0x02, 0x20, 0x02, 0x22]);
}

#[test]
fn unescape_undoes_escaping() {
    let c = cfg();
    let raw = vec![0x02, 0x21, 0x41, 0x02, 0x22];
    assert_eq!(unescape_bytes(&raw, &c), vec![0x01, 0x41, 0x02]);
}

#[test]
fn unescape_drops_trailing_lone_escape() {
    let c = cfg();
    let raw = vec![0x41, 0x02];
    assert_eq!(unescape_bytes(&raw, &c), vec![0x41]);
}

#[test]
fn built_frame_has_delimiters() {
    let c = cfg();
    let out = build_and_escape(&[0x41, 0x42], &c);
    assert_eq!(*out.first().unwrap(), c.start);
    assert_eq!(*out.last().unwrap(), c.stop);
}

#[test]
fn round_trip_through_parser() {
    let c = cfg();
    let payload = vec![0x41, 0x01, 0x00, 0x02, 0x7F];
    let wire = build_and_escape(&payload, &c);
    let mut state = ParseState::SeekStart;
    let frames = feed_bytes(&mut state, &wire, &c);
    assert_eq!(frames, vec![payload]);
}

#[test]
fn round_trip_survives_split_chunks() {
    let c = cfg();
    let payload = vec![0x10, 0x01, 0x02, 0x00];
    let wire = build_and_escape(&payload, &c);
    let mut state = ParseState::SeekStart;
    let mut collected: Vec<Vec<u8>> = Vec::new();
    for b in wire {
        collected.extend(feed_bytes(&mut state, &[b], &c));
    }
    assert_eq!(collected, vec![payload]);
}

#[test]
fn parser_skips_leading_garbage() {
    let c = cfg();
    let payload = vec![0x33, 0x44];
    let mut wire = vec![0x55, 0x66];
    wire.extend(build_and_escape(&payload, &c));
    let mut state = ParseState::SeekStart;
    let frames = feed_bytes(&mut state, &wire, &c);
    assert_eq!(frames, vec![payload]);
}

#[test]
fn parser_drops_frame_with_bad_crc() {
    let c = cfg();
    let payload = vec![0x33, 0x44];
    let mut wire = build_and_escape(&payload, &c);
    // corrupt a payload byte without touching the delimiters
    wire[1] ^= 0x10;
    let mut state = ParseState::SeekStart;
    let frames = feed_bytes(&mut state, &wire, &c);
    assert!(frames.is_empty());
}

#[test]
fn parser_delivers_two_frames_in_order() {
    let c = cfg();
    let first = vec![0x11];
    let second = vec![0x22, 0x23];
    let mut wire = build_and_escape(&first, &c);
    wire.extend(build_and_escape(&second, &c));
    let mut state = ParseState::SeekStart;
    let frames = feed_bytes(&mut state, &wire, &c);
    assert_eq!(frames, vec![first, second]);
}
