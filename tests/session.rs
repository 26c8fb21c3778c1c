use pedal_bridge::{
    find_pedal, is_pedal, ConnectionStatus, NextStep, PedalEvent, PedalSession, ReadOutcome,
    ScanOutcome, BACKOFF_MS, PEDAL_PRODUCT_ID, PEDAL_VENDOR_ID, READ_TIMEOUT_MS,
};

fn connected_session() -> PedalSession {
    let mut s = PedalSession::new();
    let r = s.on_scan(ScanOutcome::Opened);
    assert_eq!(r.events, vec![PedalEvent::PedalFound]);
    s
}

#[test]
fn not_connected_before_any_open() {
    let mut s = PedalSession::new();
    assert!(!s.is_connected());
    assert_eq!(s.status(), ConnectionStatus::Disconnected);
    let r = s.on_scan(ScanOutcome::NotFound);
    assert!(r.events.is_empty());
    assert_eq!(r.next, NextStep::Rescan { after_ms: BACKOFF_MS });
    let r = s.on_scan(ScanOutcome::OpenFailed);
    assert!(r.events.is_empty());
    assert_eq!(r.next, NextStep::Rescan { after_ms: 5000 });
    assert!(!s.is_connected());
}

#[test]
fn connected_after_pedal_found() {
    let mut s = PedalSession::new();
    let r = s.on_scan(ScanOutcome::Opened);
    assert_eq!(r.events, vec![PedalEvent::PedalFound]);
    assert_eq!(r.next, NextStep::Read { timeout_ms: READ_TIMEOUT_MS });
    assert!(s.is_connected());
    assert_eq!(s.last_mask(), 0);
}

#[test]
fn timeout_keeps_status_and_emits_nothing() {
    let mut s = connected_session();
    s.on_read(ReadOutcome::Report(0x01));
    let r = s.on_read(ReadOutcome::Timeout);
    assert!(r.events.is_empty());
    assert_eq!(r.next, NextStep::Read { timeout_ms: 100 });
    assert!(s.is_connected());
    assert_eq!(s.last_mask(), 0x01);
}

#[test]
fn read_failure_disconnects_once() {
    let mut s = connected_session();
    s.on_read(ReadOutcome::Report(0x03));
    let r = s.on_read(ReadOutcome::Failed);
    assert_eq!(r.events, vec![PedalEvent::PedalDisconnected]);
    assert_eq!(r.next, NextStep::Rescan { after_ms: BACKOFF_MS });
    assert!(!s.is_connected());
    let r = s.on_read(ReadOutcome::Failed);
    assert!(r.events.is_empty());
    assert_eq!(r.next, NextStep::Rescan { after_ms: BACKOFF_MS });
}

#[test]
fn reports_are_decoded_in_sequence() {
    let mut s = connected_session();
    assert_eq!(s.on_read(ReadOutcome::Report(0x01)).events, vec![PedalEvent::LeftPressed]);
    assert_eq!(
        s.on_read(ReadOutcome::Report(0x07)).events,
        vec![PedalEvent::CenterPressed, PedalEvent::RightPressed]
    );
    assert!(s.on_read(ReadOutcome::Report(0x07)).events.is_empty());
    assert_eq!(
        s.on_read(ReadOutcome::Report(0x00)).events,
        vec![
            PedalEvent::LeftReleased,
            PedalEvent::CenterReleased,
            PedalEvent::RightReleased
        ]
    );
}

#[test]
fn reconnect_starts_from_released() {
    let mut s = connected_session();
    s.on_read(ReadOutcome::Report(0x04));
    s.on_read(ReadOutcome::Failed);
    let r = s.on_scan(ScanOutcome::Opened);
    assert_eq!(r.events, vec![PedalEvent::PedalFound]);
    assert_eq!(s.last_mask(), 0);
    assert_eq!(s.on_read(ReadOutcome::Report(0x04)).events, vec![PedalEvent::RightPressed]);
}

#[test]
fn scan_while_connected_keeps_session() {
    let mut s = connected_session();
    s.on_read(ReadOutcome::Report(0x02));
    let r = s.on_scan(ScanOutcome::Opened);
    assert!(r.events.is_empty());
    assert_eq!(r.next, NextStep::Read { timeout_ms: READ_TIMEOUT_MS });
    assert_eq!(s.last_mask(), 0x02);
}

#[test]
fn custom_intervals_are_scheduled() {
    let mut s = PedalSession::with_intervals(7, 20);
    assert_eq!(s.on_scan(ScanOutcome::NotFound).next, NextStep::Rescan { after_ms: 20 });
    assert_eq!(s.on_scan(ScanOutcome::Opened).next, NextStep::Read { timeout_ms: 7 });
}

#[test]
fn read_outcome_from_report_bytes() {
    let buf = [0x05u8, 0, 0, 0, 0, 0, 0, 0];
    assert_eq!(ReadOutcome::from_report(0, &buf), ReadOutcome::Timeout);
    assert_eq!(ReadOutcome::from_report(8, &buf), ReadOutcome::Report(0x05));
    assert_eq!(ReadOutcome::from_report(1, &buf), ReadOutcome::Report(0x05));
}

#[test]
fn pedal_identifiers_match_exactly() {
    assert_eq!(PEDAL_VENDOR_ID, 0x05f3);
    assert_eq!(PEDAL_PRODUCT_ID, 0x00ff);
    assert!(is_pedal(0x05f3, 0x00ff));
    assert!(!is_pedal(0x05f3, 0x00fe));
    assert!(!is_pedal(0x05f4, 0x00ff));
}

#[test]
fn find_pedal_picks_first_match() {
    assert_eq!(find_pedal(&vec![]), None);
    assert_eq!(find_pedal(&vec![(0x046d, 0xc52b), (0x05f3, 0x0001)]), None);
    assert_eq!(
        find_pedal(&vec![(0x046d, 0xc52b), (0x05f3, 0x00ff), (0x05f3, 0x00ff)]),
        Some(1)
    );
}
