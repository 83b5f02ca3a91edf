use core::sync::atomic::AtomicBool;
use core::sync::atomic::Ordering;
use servo_bus::events::Protocol;
use servo_bus::events::ScanEvent;
use servo_bus::events::ServoError;
use servo_bus::events::ServoInfo;
use servo_bus::events::parse_protocol;
use servo_bus::scan::ScanEngine;
use servo_bus::scan::scan_servos;
use servo_bus::session::ScanState;
use servo_bus::session::cancel_scan;

#[test]
fn protocol_strings_are_recognised() {
    assert_eq!(parse_protocol("2.0"), Some(Protocol::V2));
    assert_eq!(parse_protocol("1.0"), Some(Protocol::V1));
    assert_eq!(parse_protocol("3.0"), None);
    assert_eq!(parse_protocol("2.1"), None);
    assert_eq!(parse_protocol(""), None);
    assert_eq!(parse_protocol("2.00"), None);
}

#[test]
fn empty_sweep_emits_progress_per_id_then_finished() {
    let mut eng = ScanEngine::new(1, 5);
    let mut events: Vec<ScanEvent> = Vec::new();
    while !eng.is_done() {
        let mut batch = eng.step(false, Vec::new());
        events.append(&mut batch);
    }
    let expected = vec![
        ScanEvent::Progress { current: 1, total: 5 },
        ScanEvent::Progress { current: 2, total: 5 },
        ScanEvent::Progress { current: 3, total: 5 },
        ScanEvent::Progress { current: 4, total: 5 },
        ScanEvent::Progress { current: 5, total: 5 },
        ScanEvent::Finished { cancelled: false },
    ];
    assert_eq!(events, expected);
}

#[test]
fn cancellation_before_any_ping_ends_the_sweep_at_once() {
    let mut eng = ScanEngine::new(1, 5);
    let events = eng.step(true, Vec::new());
    assert_eq!(events, vec![ScanEvent::Finished { cancelled: true }]);
    assert!(eng.is_done());
}

#[test]
fn answering_devices_are_reported_between_progress_events() {
    let mut eng = ScanEngine::new(10, 11);
    let found = vec![ServoInfo { id: 10, model_number: 0 }];
    let first = eng.step(false, found);
    assert_eq!(
        first,
        vec![
            ScanEvent::Progress { current: 10, total: 2 },
            ScanEvent::Found(ServoInfo { id: 10, model_number: 0 }),
        ]
    );
    let second = eng.step(false, Vec::new());
    assert_eq!(
        second,
        vec![
            ScanEvent::Progress { current: 11, total: 2 },
            ScanEvent::Finished { cancelled: false },
        ]
    );
    assert!(eng.is_done());
}

#[test]
fn cancellation_mid_sweep_keeps_earlier_events() {
    let mut eng = ScanEngine::new(1, 3);
    let mut events = eng.step(false, Vec::new());
    events.append(&mut eng.step(true, Vec::new()));
    assert_eq!(
        events,
        vec![
            ScanEvent::Progress { current: 1, total: 3 },
            ScanEvent::Finished { cancelled: true },
        ]
    );
    assert!(eng.is_done());
}

#[test]
fn unknown_protocol_fails_the_scan_before_any_event() {
    let flag = AtomicBool::new(false);
    let r = scan_servos("/dev/null", "9.9", 57600, 1, 3, &flag);
    match r {
        Err(ServoError::UnsupportedProtocol { protocol }) => assert_eq!(protocol, "9.9"),
        _ => panic!("expected an unsupported-protocol error"),
    }
}

#[test]
fn unopenable_port_fails_the_scan_with_the_port_named() {
    let flag = AtomicBool::new(false);
    let r = scan_servos("/nonexistent/port", "2.0", 57600, 1, 3, &flag);
    match r {
        Err(ServoError::ConnectionFailure { port, message: _ }) => {
            assert_eq!(port, "/nonexistent/port")
        },
        _ => panic!("expected a connection failure"),
    }
}

#[test]
fn unsupported_protocol_message_reads_as_reported() {
    let e = ServoError::UnsupportedProtocol { protocol: String::from("9.9") };
    assert_eq!(e.message(), "Unsupported protocol: 9.9");
    let f = ServoError::ConnectionFailure {
        port: String::from("/dev/ttyUSB0"),
        message: String::from("busy"),
    };
    assert_eq!(f.message(), "Failed to open port /dev/ttyUSB0: busy");
    assert_eq!(ServoError::NoActiveConnection.message(), "No active connection");
}

#[test]
fn cancel_scan_sets_the_shared_flag() {
    let state = ScanState::new();
    assert!(!state.cancel.load(Ordering::Relaxed));
    cancel_scan(&state);
    assert!(state.cancel.load(Ordering::Relaxed));
}

#[test]
fn single_id_sweep_finishes_in_one_step() {
    let mut eng = ScanEngine::new(7, 7);
    let events = eng.step(false, Vec::new());
    assert_eq!(
        events,
        vec![
            ScanEvent::Progress { current: 7, total: 1 },
            ScanEvent::Finished { cancelled: false },
        ]
    );
    assert!(eng.is_done());
}

#[test]
fn full_id_range_sweep_covers_every_id() {
    let mut eng = ScanEngine::new(0, 255);
    let mut events: Vec<ScanEvent> = Vec::new();
    while !eng.is_done() {
        let mut batch = eng.step(false, Vec::new());
        events.append(&mut batch);
    }
    assert_eq!(events.len(), 257);
    assert_eq!(events[0], ScanEvent::Progress { current: 0, total: 256 });
    assert_eq!(events[255], ScanEvent::Progress { current: 255, total: 256 });
    assert_eq!(events[256], ScanEvent::Finished { cancelled: false });
}
