use servo_bus::connection::ConnectionState;
use servo_bus::connection::batch_events;
use servo_bus::connection::close_connection;
use servo_bus::connection::open_connection;
use servo_bus::connection::read_control_table;
use servo_bus::events::ReadEvent;
use servo_bus::events::ScanEvent;
use servo_bus::events::ServoError;
use servo_bus::session::ScanState;
use servo_bus::session::run_scan_then_connect;

#[test]
fn read_batch_without_connection_fails_whole_and_emits_nothing() {
    let mut state = ConnectionState::new();
    let fields = vec![(0x06u16, 1u16), (0x2Au16, 2u16)];
    let r = read_control_table(1, &fields, &mut state);
    assert!(matches!(r, Err(ServoError::NoActiveConnection)));
    assert!(state.bus.is_none());
}

#[test]
fn mixed_batch_reports_value_error_finished_in_field_order() {
    let fields = vec![(0x06u16, 1u16), (0x2Au16, 2u16)];
    let outcomes = vec![Ok(vec![0x05u8]), Err(String::from("timeout"))];
    let events = batch_events(&fields, &outcomes);
    assert_eq!(events.len(), 3);
    assert!(matches!(events[0], ReadEvent::Value { address: 0x06, value: 5 }));
    match &events[1] {
        ReadEvent::Error { address, message } => {
            assert_eq!(*address, 0x2A);
            assert_eq!(message, "timeout");
        },
        _ => panic!("expected a per-field error event"),
    }
    assert!(matches!(events[2], ReadEvent::Finished));
}

#[test]
fn batch_values_are_decoded_width_aware() {
    let fields = vec![(0u16, 2u16), (2u16, 4u16)];
    let outcomes = vec![Ok(vec![0xFFu8, 0xFF]), Ok(vec![0x00u8, 0x00, 0x00, 0x80])];
    let events = batch_events(&fields, &outcomes);
    assert!(matches!(events[0], ReadEvent::Value { address: 0, value: -1 }));
    assert!(matches!(events[1], ReadEvent::Value { address: 2, value: -2147483648 }));
    assert!(matches!(events[2], ReadEvent::Finished));
}

#[test]
fn empty_batch_still_finishes() {
    let events = batch_events(&Vec::new(), &Vec::new());
    assert_eq!(events.len(), 1);
    assert!(matches!(events[0], ReadEvent::Finished));
}

#[test]
fn open_with_unknown_protocol_is_rejected_and_state_kept() {
    let mut state = ConnectionState::new();
    let r = open_connection("/dev/ttyUSB0", "5.0", 1000000, &mut state);
    match r {
        Err(ServoError::UnsupportedProtocol { protocol }) => assert_eq!(protocol, "5.0"),
        _ => panic!("expected an unsupported-protocol error"),
    }
    assert!(state.bus.is_none());
}

#[test]
fn failed_open_leaves_no_connection() {
    let mut state = ConnectionState::new();
    let r = open_connection("/nonexistent/port", "1.0", 1000000, &mut state);
    match r {
        Err(ServoError::ConnectionFailure { port, message: _ }) => {
            assert_eq!(port, "/nonexistent/port")
        },
        _ => panic!("expected a connection failure"),
    }
    assert!(state.bus.is_none());
}

#[test]
fn opening_twice_never_accumulates_connections() {
    let mut state = ConnectionState::new();
    let _ = open_connection("/nonexistent/port", "2.0", 57600, &mut state);
    let _ = open_connection("/nonexistent/port", "2.0", 57600, &mut state);
    // the slot holds at most one bus; after two failed opens it holds none
    assert!(state.bus.is_none());
}

#[test]
fn close_is_idempotent() {
    let mut state = ConnectionState::new();
    assert!(close_connection(&mut state).is_ok());
    assert!(close_connection(&mut state).is_ok());
    assert!(state.bus.is_none());
}

#[test]
fn scan_then_connect_surfaces_scan_failure_with_no_events() {
    let scan_state = ScanState::new();
    let mut conn = ConnectionState::new();
    let (events, result) = run_scan_then_connect(
        "/nonexistent/port",
        "2.0",
        57600,
        1,
        3,
        &scan_state,
        &mut conn,
    );
    assert!(events.is_empty());
    assert!(matches!(result, Err(ServoError::ConnectionFailure { .. })));
    assert!(conn.bus.is_none());
}

#[test]
fn scan_then_connect_rejects_unknown_protocol() {
    let scan_state = ScanState::new();
    let mut conn = ConnectionState::new();
    let (events, result) = run_scan_then_connect("/dev/null", "9.9", 57600, 1, 3, &scan_state, &mut conn);
    let no_events: Vec<ScanEvent> = Vec::new();
    assert_eq!(events, no_events);
    assert!(matches!(result, Err(ServoError::UnsupportedProtocol { .. })));
    assert!(conn.bus.is_none());
}
