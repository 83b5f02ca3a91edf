//! The session orchestrator: one scan-capable session per application.
//!
//! A scan must not run while a persistent connection is open — both would
//! hold the same physical port — so the orchestrator closes any held
//! connection before scanning, and a finished sweep hands off into a
//! fresh persistent connection with the same parameters.

use vstd::prelude::*;
use core::sync::atomic::AtomicBool;
use core::sync::atomic::Ordering;
use crate::connection::ConnectionState;
use crate::connection::close_connection;
use crate::connection::open_connection;
use crate::events::ScanEvent;
use crate::events::ServoError;
use crate::events::spec_protocol_of;
use crate::scan::scan_result_ok;
use crate::scan::scan_servos;

verus! {

/// Shared cancellation flag for the active scan: the orchestrator writes
/// it on a cancel request, the running sweep polls it between pings.
/// Share one instance per session across threads.
pub struct ScanState {
    pub cancel: AtomicBool,
}

impl ScanState {
    /// A fresh session flag with no cancellation requested.
    pub fn new() -> ScanState {
        ScanState { cancel: AtomicBool::new(false) }
    }
}

impl Default for ScanState {
    fn default() -> ScanState {
        ScanState::new()
    }
}

/// Requests cancellation of the scan in progress. Advisory: the sweep
/// observes the flag between pings, so one in-flight ping may still
/// complete. Has no effect once a scan has already finished.
pub fn cancel_scan(state: &ScanState) {
    state.cancel.store(true, Ordering::Relaxed);
}

/// Runs a scan and, when it finishes (complete or cancelled), opens a
/// persistent connection with the same port, protocol and baud rate.
///
/// Any prior connection is closed first and the cancellation flag is
/// reset, so only a cancel requested after this call starts can cut the
/// sweep short. The scan's events are returned in either case; they are
/// empty exactly when the scan itself never started. On any error the
/// session ends with no connection open.
pub fn run_scan_then_connect(
    port: &str,
    protocol: &str,
    baudrate: u32,
    id_start: u8,
    id_end: u8,
    scan_state: &ScanState,
    conn: &mut ConnectionState,
) -> (r: (Vec<ScanEvent>, Result<(), ServoError>))
    requires
        id_start <= id_end,
    ensures
        match r.1 {
            Ok(()) => (spec_protocol_of(protocol@) matches Some(p) && final(conn).bus matches Some(
                c,
            ) && c.protocol() == p && scan_result_ok(id_start, id_end, r.0@)),
            Err(e) => final(conn).bus is None && match e {
                ServoError::UnsupportedProtocol { protocol: ps } => spec_protocol_of(protocol@)
                    is None && ps@ == protocol@ && r.0@ == Seq::<ScanEvent>::empty(),
                ServoError::ConnectionFailure { port: po, message: _ } => spec_protocol_of(
                    protocol@,
                ) is Some && po@ == port@ && (r.0@ == Seq::<ScanEvent>::empty() || scan_result_ok(
                    id_start,
                    id_end,
                    r.0@,
                )),
                ServoError::NoActiveConnection => false,
            },
        },
{
    let _ = close_connection(conn);
    scan_state.cancel.store(false, Ordering::Relaxed);
    match scan_servos(port, protocol, baudrate, id_start, id_end, &scan_state.cancel) {
        Err(e) => (Vec::new(), Err(e)),
        Ok(evs) => match open_connection(port, protocol, baudrate, conn) {
            Ok(()) => (evs, Ok(())),
            Err(e) => (evs, Err(e)),
        },
    }
}

} // verus!
