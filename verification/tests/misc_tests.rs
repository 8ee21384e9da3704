use load_bank::clock::millis_to_next_second;
use load_bank::diag::{to_ascii_pretty, to_hex, Roundtrip};
use load_bank::digest::calibration_file_hash;
use load_bank::labels::to_wave_unit;
use load_bank::mode::RunMode;
use load_bank::ports::{describe_port, PortKind};
use load_bank::records::{AppInfo, ClockTick, InstrumentMini};

#[test]
fn hex_renders_spaced_upper_case_pairs() {
    assert_eq!(to_hex(&[]), "");
    assert_eq!(to_hex(&[0x00]), "00");
    assert_eq!(to_hex(&[0x00, 0x1B, 0xFF]), "00 1B FF");
    assert_eq!(to_hex(&[0xAB, 0xCD]), "AB CD");
}

#[test]
fn ascii_pretty_marks_control_bytes() {
    assert_eq!(to_ascii_pretty(b"Hi!"), "Hi!");
    assert_eq!(to_ascii_pretty(&[0x48, 0x0D, 0x0A, 0x00, 0x7F]), "H\u{240D}\u{240A}\u{B7}\u{B7}");
}

#[test]
fn roundtrip_record_renders_both_directions() {
    let r = Roundtrip::from_bytes(vec![0x41, 0x0A], vec![0xFF]);
    assert_eq!(r.sent_bytes, vec![0x41, 0x0A]);
    assert_eq!(r.recv_bytes, vec![0xFF]);
    assert_eq!(r.sent_hex, "41 0A");
    assert_eq!(r.recv_hex, "FF");
    assert_eq!(r.sent_ascii, "A\u{240A}");
    assert_eq!(r.recv_ascii, "\u{B7}");
}

#[test]
fn wave_unit_classifies_labels() {
    let (wave, unit) = to_wave_unit("A DC");
    assert_eq!((wave.as_str(), unit.as_str()), ("dc", "A"));
    // the unit test is a plain letter search: the A of "AC" also counts
    let (wave, unit) = to_wave_unit("V AC");
    assert_eq!((wave.as_str(), unit.as_str()), ("ac", "A"));
    let (wave, unit) = to_wave_unit("V");
    assert_eq!((wave.as_str(), unit.as_str()), ("dc", "V"));
    let (wave, unit) = to_wave_unit("a ac");
    assert_eq!((wave.as_str(), unit.as_str()), ("ac", "A"));
    let (wave, unit) = to_wave_unit("");
    assert_eq!((wave.as_str(), unit.as_str()), ("dc", "V"));
    // a label naming both: the direct-current reading wins
    let (wave, unit) = to_wave_unit("A DC/AC");
    assert_eq!((wave.as_str(), unit.as_str()), ("dc", "A"));
}

#[test]
fn run_mode_from_selector() {
    assert!(matches!(RunMode::from_port_name(""), RunMode::Auto));
    assert!(matches!(RunMode::from_port_name("   "), RunMode::Auto));
    assert!(matches!(RunMode::from_port_name("\t\r\n"), RunMode::Auto));
    let m = RunMode::from_port_name("  COM3  ");
    assert_eq!(m.fixed_port(), Some("COM3"));
    assert_eq!(m.key(), "fixed:COM3");
    assert_eq!(RunMode::from_port_name(" ").key(), "auto");
    assert_eq!(RunMode::Auto.fixed_port(), None);
}

#[test]
fn describe_port_keeps_usb_identity() {
    let info = describe_port(
        "COM7".to_string(),
        PortKind::Usb,
        0x1A86,
        0x7523,
        Some("S123".to_string()),
        Some("wch".to_string()),
        Some("CH340".to_string()),
    );
    assert_eq!(info.port_name, "COM7");
    assert_eq!(info.port_type, "usb");
    assert_eq!(info.vid, Some(0x1A86));
    assert_eq!(info.pid, Some(0x7523));
    assert_eq!(info.serial_number.as_deref(), Some("S123"));
    assert_eq!(info.manufacturer.as_deref(), Some("wch"));
    assert_eq!(info.product.as_deref(), Some("CH340"));
}

#[test]
fn describe_port_strips_identity_of_other_kinds() {
    for (kind, ty) in [
        (PortKind::Bluetooth, "bluetooth"),
        (PortKind::Pci, "pci"),
        (PortKind::Unknown, "unknown"),
    ] {
        let info = describe_port(
            "X".to_string(),
            kind,
            1,
            2,
            Some("s".to_string()),
            Some("m".to_string()),
            Some("p".to_string()),
        );
        assert_eq!(info.port_type, ty);
        assert!(info.vid.is_none());
        assert!(info.pid.is_none());
        assert!(info.serial_number.is_none());
        assert!(info.manufacturer.is_none());
        assert!(info.product.is_none());
    }
}

#[test]
fn next_second_boundary() {
    assert_eq!(millis_to_next_second(0), 1000);
    assert_eq!(millis_to_next_second(999), 1);
    assert_eq!(millis_to_next_second(1_000), 1000);
    assert_eq!(millis_to_next_second(1_500), 500);
    assert_eq!(millis_to_next_second(1_736_000_123_456), 544);
}

#[test]
fn sha256_digest_of_known_inputs() {
    assert_eq!(
        calibration_file_hash(b""),
        "e3b0c44298fc1c149afbf4c8996fb92427ae41e4649b934ca495991b7852b855"
    );
    assert_eq!(
        calibration_file_hash(b"abc"),
        "ba7816bf8f01cfea414140de5dae2223b00361a396177a9cb410ff61f20015ad"
    );
}

#[test]
fn record_types_hold_plain_values() {
    let app = AppInfo {
        id: "42".to_string(),
        name: "loadbank".to_string(),
        running_time_formatted: "00:01:02".to_string(),
        memory_in_bytes: 1024,
    };
    assert_eq!(app.memory_in_bytes, 1024);
    let tick = ClockTick { epoch_ms: 1_736_000_000_000 };
    assert_eq!(tick.clone().epoch_ms, 1_736_000_000_000);
    let inst = InstrumentMini { code: "EWT-1".to_string(), name: None };
    assert_eq!(inst.clone().code, "EWT-1");
}
