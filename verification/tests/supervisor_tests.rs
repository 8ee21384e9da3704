use load_bank::supervisor::{LbError, StartAction, Supervisor};
use load_bank::worker::RuntimeCmd;

#[test]
fn first_start_spawns_without_stopping() {
    let mut s = Supervisor::new();
    match s.start("COM3", 115_200) {
        StartAction::Start { stop_previous } => assert!(!stop_previous),
        StartAction::AlreadyRunning => panic!("no session was running yet"),
    }
    let meta = s.slot.as_ref().expect("slot filled");
    assert_eq!(meta.mode_key, "fixed:COM3");
    assert_eq!(meta.baud, 115_200);
    assert_eq!(meta.session_id, 0);
}

#[test]
fn repeated_start_is_a_no_op() {
    let mut s = Supervisor::new();
    let _ = s.start("COM3", 115_200);
    let id_before = s.slot.as_ref().unwrap().session_id;
    let next_before = s.next_id;
    assert!(matches!(s.start("COM3", 115_200), StartAction::AlreadyRunning));
    // the same handle is still in place: no new session was created
    assert_eq!(s.slot.as_ref().unwrap().session_id, id_before);
    assert_eq!(s.next_id, next_before);
    // selectors that trim to the same name hit the same key
    assert!(matches!(s.start("  COM3  ", 115_200), StartAction::AlreadyRunning));
}

#[test]
fn changed_baud_replaces_the_session() {
    let mut s = Supervisor::new();
    let _ = s.start("COM3", 9_600);
    match s.start("COM3", 115_200) {
        StartAction::Start { stop_previous } => assert!(stop_previous),
        StartAction::AlreadyRunning => panic!("baud changed, session must be replaced"),
    }
    let meta = s.slot.as_ref().unwrap();
    assert_eq!(meta.baud, 115_200);
    assert_eq!(meta.session_id, 1);
}

#[test]
fn changed_selector_replaces_the_session() {
    let mut s = Supervisor::new();
    let _ = s.start("COM3", 9_600);
    match s.start("", 9_600) {
        StartAction::Start { stop_previous } => assert!(stop_previous),
        StartAction::AlreadyRunning => panic!("selector changed, session must be replaced"),
    }
    assert_eq!(s.slot.as_ref().unwrap().mode_key, "auto");
}

#[test]
fn blank_selector_means_auto() {
    let mut s = Supervisor::new();
    let _ = s.start("   ", 9_600);
    assert_eq!(s.slot.as_ref().unwrap().mode_key, "auto");
}

#[test]
fn stop_empties_the_slot() {
    let mut s = Supervisor::new();
    assert!(!s.stop());
    let _ = s.start("COM3", 9_600);
    assert!(s.stop());
    assert!(s.slot.is_none());
    assert!(!s.stop());
}

#[test]
fn write_without_session_is_refused() {
    let s = Supervisor::new();
    match s.write(vec![1, 2]) {
        Err(e) => {
            assert!(matches!(e, LbError::NoActiveSession));
            assert_eq!(e.message(), "Load bank polling not running");
        },
        Ok(_) => panic!("no session may accept commands"),
    }
}

#[test]
fn write_with_session_forwards_bytes() {
    let mut s = Supervisor::new();
    let _ = s.start("COM3", 9_600);
    match s.write(vec![0xDE, 0xAD]) {
        Ok(RuntimeCmd::Write(d)) => assert_eq!(d, vec![0xDE, 0xAD]),
        _ => panic!("expected a write command"),
    }
}

#[test]
fn set_polling_without_session_is_refused() {
    let s = Supervisor::new();
    assert!(matches!(s.set_polling(100, None), Err(LbError::NoActiveSession)));
}

#[test]
fn set_polling_with_session_forwards_config() {
    let mut s = Supervisor::new();
    let _ = s.start("COM3", 9_600);
    match s.set_polling(250, Some(vec![0x05])) {
        Ok(RuntimeCmd::SetPolling { every_ms, frame }) => {
            assert_eq!(every_ms, 250);
            assert_eq!(frame, Some(vec![0x05]));
        },
        _ => panic!("expected a polling command"),
    }
}

#[test]
fn channel_closed_message() {
    assert_eq!(LbError::ChannelClosed.message(), "runtime channel closed");
}
