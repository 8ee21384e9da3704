use load_bank::codec::{crc8_load_bank, find_first_valid_status, parse_frame, u16_to_bytes};

// A well-formed frame: version 1, power 0x0102, bank 7, health 0x55, masks
// 3/1/2/4, auxiliary error 9, checksum 0xA8.
fn sample_frame() -> Vec<u8> {
    vec![
        0x01, 0x01, 0x02, 0x07, 0x55, 0x00, 0x03, 0x00, 0x01, 0x00, 0x02, 0x00, 0x04, 0x09, 0xA8,
    ]
}

#[test]
fn crc8_of_sample_frame() {
    let f = sample_frame();
    assert_eq!(crc8_load_bank(&f), Some(0xA8));
}

#[test]
fn crc8_needs_full_frame() {
    assert_eq!(crc8_load_bank(&[0x01, 0x02, 0x03]), None);
    assert_eq!(crc8_load_bank(&[]), None);
}

#[test]
fn crc8_of_all_zero_prefix_is_zero() {
    let f = vec![0u8; 15];
    assert_eq!(crc8_load_bank(&f), Some(0x00));
}

#[test]
fn u16_combines_big_endian() {
    assert_eq!(u16_to_bytes(0x12, 0x34), 0x1234);
    assert_eq!(u16_to_bytes(0x00, 0xFF), 0x00FF);
    assert_eq!(u16_to_bytes(0xFF, 0x00), 0xFF00);
}

#[test]
fn parse_frame_reads_documented_offsets() {
    let f = sample_frame();
    let st = parse_frame(&f, "COM3").expect("valid frame must decode");
    assert_eq!(st.port_name, "COM3");
    assert_eq!(st.version, 1);
    assert_eq!(st.bank_power, 0x0102);
    assert_eq!(st.bank_no, 7);
    assert_eq!(st.bank_health, 0x55);
    assert_eq!(st.contactors_mask, 3);
    assert_eq!(st.err_contactors, 1);
    assert_eq!(st.err_fans, 2);
    assert_eq!(st.err_thermals, 4);
    assert_eq!(st.other_errors, 9);
    assert_eq!(st.raw_frame_hex, "01 01 02 07 55 00 03 00 01 00 02 00 04 09 A8");
}

#[test]
fn parse_frame_rejects_wrong_length() {
    let f = sample_frame();
    assert!(parse_frame(&f[..14], "COM3").is_none());
    let mut long = f.clone();
    long.push(0x00);
    assert!(parse_frame(&long, "COM3").is_none());
}

#[test]
fn parse_frame_rejects_bad_checksum() {
    let mut f = sample_frame();
    f[14] = f[14].wrapping_add(1);
    assert!(parse_frame(&f, "COM3").is_none());
}

#[test]
fn parse_frame_rejects_every_single_bit_flip() {
    let f = sample_frame();
    for i in 0..15 {
        for bit in 0..8 {
            let mut g = f.clone();
            g[i] ^= 1u8 << bit;
            assert!(parse_frame(&g, "COM3").is_none(), "flip at byte {} bit {}", i, bit);
        }
    }
}

#[test]
fn short_buffers_never_match() {
    for n in 0..15 {
        let buf = vec![0xAAu8; n];
        assert!(find_first_valid_status(&buf, "COM3").is_none());
    }
}

#[test]
fn scanner_finds_first_frame_behind_garbage() {
    let mut buf = vec![0xAA, 0xAA];
    buf.extend_from_slice(&sample_frame());
    buf.push(0xBB);
    let (offset, st) = find_first_valid_status(&buf, "COM3").expect("frame present");
    assert_eq!(offset, 2);
    assert_eq!(st.bank_no, 7);
}

#[test]
fn scanner_reports_leftmost_frame() {
    let mut buf = sample_frame();
    buf.extend_from_slice(&sample_frame());
    let (offset, _st) = find_first_valid_status(&buf, "COM3").expect("frame present");
    assert_eq!(offset, 0);
}

#[test]
fn scanner_rejects_pure_garbage() {
    let buf = vec![0xAAu8; 4000];
    assert!(find_first_valid_status(&buf, "COM3").is_none());
}
