//! The persistent bus connection and control-table reads.
//!
//! At most one live connection exists at a time: it is an `Option` held
//! inside [`ConnectionState`]. Callers that share a `ConnectionState`
//! across threads must serialise access to it; every operation takes the
//! state by exclusive reference.

use vstd::prelude::*;
use crate::bus;
use crate::decode::bytes_to_i64;
use crate::decode::decode_spec;
use crate::events::Protocol;
use crate::events::ReadEvent;
use crate::events::ServoError;
use crate::events::parse_protocol;
use crate::events::spec_protocol_of;

verus! {

/// Response timeout for a short-lived discovery bus: tuned for fast
/// negative answers across a wide ID sweep.
pub const SCAN_TIMEOUT_MS: u64 = 50;

/// Response timeout for the persistent connection: tuned for reliable
/// answers from a known-present device.
pub const CONNECT_TIMEOUT_MS: u64 = 100;

/// An open connection to the serial bus (either protocol version).
pub enum BusConnection {
    V1(dynamixel_sdk::v1::Bus),
    V2(dynamixel_sdk::v2::Bus),
}

impl BusConnection {
    /// The wire-protocol revision this connection speaks.
    pub open spec fn protocol(self) -> Protocol {
        match self {
            BusConnection::V1(_) => Protocol::V1,
            BusConnection::V2(_) => Protocol::V2,
        }
    }
}

/// State for the at-most-one persistent serial connection.
pub struct ConnectionState {
    pub bus: Option<BusConnection>,
}

impl ConnectionState {
    /// A state with no connection open.
    pub fn new() -> (s: ConnectionState)
        ensures
            s.bus is None,
    {
        ConnectionState { bus: None }
    }
}

impl Default for ConnectionState {
    fn default() -> (s: ConnectionState)
        ensures
            s.bus is None,
    {
        ConnectionState::new()
    }
}

/// Opens a bus speaking the given protocol on the given port.
pub(crate) fn connect_bus(protocol: Protocol, port: &str, baudrate: u32, timeout_ms: u64) -> (r:
    Result<BusConnection, String>)
    ensures
        r matches Ok(c) ==> c.protocol() == protocol,
{
    match protocol {
        Protocol::V2 => match bus::v2_connect(port, baudrate, timeout_ms) {
            Ok(b) => Ok(BusConnection::V2(b)),
            Err(m) => Err(m),
        },
        Protocol::V1 => match bus::v1_connect(port, baudrate, timeout_ms) {
            Ok(b) => Ok(BusConnection::V1(b)),
            Err(m) => Err(m),
        },
    }
}

/// Pings one ID on whichever bus is open; the IDs that answered come
/// back in no promised order.
pub(crate) fn ping_on(conn: &mut BusConnection, id: u8) -> (r: Result<Vec<u8>, String>)
    ensures
        final(conn).protocol() == old(conn).protocol(),
{
    match conn {
        BusConnection::V2(b) => bus::v2_ping(b, id),
        BusConnection::V1(b) => bus::v1_ping(b, id),
    }
}

/// How many bytes a successful read of a field of `size` bytes hands
/// back: the older protocol narrows the size to 8 bits.
pub open spec fn read_len(p: Protocol, size: u16) -> int {
    match p {
        Protocol::V2 => size as int,
        Protocol::V1 => (size as u8) as int,
    }
}

/// Reads one field on whichever bus is open. Under the older protocol,
/// address and size are narrowed to 8 bits; a caller-supplied value that
/// does not fit is truncated.
pub(crate) fn read_on(conn: &mut BusConnection, id: u8, address: u16, size: u16) -> (r: Result<
    Vec<u8>,
    String,
>)
    ensures
        final(conn).protocol() == old(conn).protocol(),
        r matches Ok(b) ==> b@.len() == read_len(old(conn).protocol(), size),
{
    match conn {
        BusConnection::V2(b) => bus::v2_read(b, id, address, size),
        BusConnection::V1(b) => bus::v1_read(
            b,
            id,
            #[verifier::truncate] (address as u8),
            #[verifier::truncate] (size as u8),
        ),
    }
}

/// Opens a persistent connection to the serial port, replacing any prior
/// one. The prior connection is dropped before the new one is attempted,
/// so a failed open leaves no connection at all.
pub fn open_connection(port: &str, protocol: &str, baudrate: u32, state: &mut ConnectionState) -> (r:
    Result<(), ServoError>)
    ensures
        match r {
            Ok(()) => (spec_protocol_of(protocol@) matches Some(p) && final(state).bus matches Some(
                c,
            ) && c.protocol() == p),
            Err(e) => match e {
                ServoError::UnsupportedProtocol { protocol: ps } => (spec_protocol_of(protocol@)
                    is None && ps@ == protocol@ && final(state).bus == old(state).bus),
                ServoError::ConnectionFailure { port: po, message: _ } => (spec_protocol_of(
                    protocol@,
                ) is Some && po@ == port@ && final(state).bus is None),
                ServoError::NoActiveConnection => false,
            },
        },
{
    match parse_protocol(protocol) {
        None => Err(ServoError::UnsupportedProtocol { protocol: protocol.to_owned() }),
        Some(p) => {
            state.bus = None;
            match connect_bus(p, port, baudrate, CONNECT_TIMEOUT_MS) {
                Ok(c) => {
                    state.bus = Some(c);
                    Ok(())
                },
                Err(m) => Err(ServoError::ConnectionFailure { port: port.to_owned(), message: m }),
            }
        },
    }
}

/// Closes the persistent connection, dropping the bus and releasing the
/// port. Idempotent: closing with nothing open succeeds trivially.
pub fn close_connection(state: &mut ConnectionState) -> (r: Result<(), ServoError>)
    ensures
        r is Ok,
        final(state).bus is None,
{
    state.bus = None;
    Ok(())
}

/// How one field's outcome is reported: a successful read becomes a
/// decoded `Value` at the field's address, a failed one an `Error`
/// carrying the bus's description.
pub open spec fn event_matches(field: (u16, u16), out: Result<Vec<u8>, String>, ev: ReadEvent) -> bool {
    match out {
        Ok(bytes) => ev matches ReadEvent::Value { address, value } && address == field.0 && value
            == decode_spec(bytes@),
        Err(msg) => ev matches ReadEvent::Error { address, message } && address == field.0
            && message@ == msg@,
    }
}

/// A completed read batch over `fields` under protocol `p`: some
/// sequence of per-field outcomes, each of the promised length on
/// success, explains the reported events.
pub open spec fn batch_explained(
    fields: Seq<(u16, u16)>,
    p: Protocol,
    outs: Seq<Result<Vec<u8>, String>>,
    evs: Seq<ReadEvent>,
) -> bool {
    &&& outs.len() == fields.len()
    &&& batch_matches(fields, outs, evs)
    &&& forall|i: int|
        0 <= i < outs.len() ==> ((#[trigger] outs[i]) matches Ok(b) ==> b@.len() == read_len(
            p,
            fields[i].1,
        ))
}

/// The event sequence of a read batch: one event per field, in the
/// fields' own order, closed by exactly one `Finished`.
pub open spec fn batch_matches(
    fields: Seq<(u16, u16)>,
    outs: Seq<Result<Vec<u8>, String>>,
    evs: Seq<ReadEvent>,
) -> bool {
    &&& evs.len() == fields.len() + 1
    &&& evs.last() == ReadEvent::Finished
    &&& forall|i: int|
        0 <= i < fields.len() ==> #[trigger] event_matches(fields[i], outs[i], evs[i])
}

/// A successful read batch seen from outside: the connection that was
/// held before the call explains the reported events through some
/// sequence of per-field outcomes.
pub open spec fn read_result_ok(
    fields: Seq<(u16, u16)>,
    before: ConnectionState,
    evs: Seq<ReadEvent>,
) -> bool {
    before.bus matches Some(c) && exists|outs: Seq<Result<Vec<u8>, String>>|
        #[trigger] batch_explained(fields, c.protocol(), outs, evs)
}

/// Turns per-field read outcomes into the reported event sequence: one
/// `Value` or `Error` per field, in order, then one final `Finished`.
pub fn batch_events(fields: &Vec<(u16, u16)>, outcomes: &Vec<Result<Vec<u8>, String>>) -> (evs: Vec<
    ReadEvent,
>)
    requires
        fields@.len() == outcomes@.len(),
    ensures
        batch_matches(fields@, outcomes@, evs@),
{
    let mut evs: Vec<ReadEvent> = Vec::new();
    let mut i: usize = 0;
    while i < fields.len()
        invariant
            i <= fields@.len(),
            fields@.len() == outcomes@.len(),
            evs@.len() == i,
            forall|j: int|
                0 <= j < i ==> #[trigger] event_matches(fields@[j], outcomes@[j], evs@[j]),
        decreases fields@.len() - i,
    {
        let (address, _size) = fields[i];
        match &outcomes[i] {
            Ok(bytes) => {
                let value = bytes_to_i64(bytes.as_slice());
                evs.push(ReadEvent::Value { address, value });
            },
            Err(msg) => {
                evs.push(ReadEvent::Error { address, message: msg.clone() });
            },
        }
        i = i + 1;
    }
    evs.push(ReadEvent::Finished);
    evs
}

/// Reads a list of control-table fields from one servo over the
/// persistent connection. Each field is reported as its own event,
/// success or failure, in the fields' order, then one `Finished`; the
/// whole call fails only when no connection is open, and then no event
/// is produced.
pub fn read_control_table(servo_id: u8, fields: &Vec<(u16, u16)>, state: &mut ConnectionState) -> (r:
    Result<Vec<ReadEvent>, ServoError>)
    ensures
        r is Err <==> old(state).bus is None,
        r matches Err(e) ==> (e is NoActiveConnection && *final(state) == *old(state)),
        r is Ok ==> (old(state).bus matches Some(c) && final(state).bus matches Some(c2)
            && c2.protocol() == c.protocol()),
        r matches Ok(evs) ==> read_result_ok(fields@, *old(state), evs@),
{
    let taken = state.bus.take();
    match taken {
        None => {
            proof {
                assert(*state =~= *old(state));
            }
            Err(ServoError::NoActiveConnection)
        },
        Some(mut conn) => {
            let ghost p = conn.protocol();
            let mut outs: Vec<Result<Vec<u8>, String>> = Vec::new();
            let mut i: usize = 0;
            while i < fields.len()
                invariant
                    i <= fields@.len(),
                    outs@.len() == i,
                    conn.protocol() == p,
                    forall|j: int|
                        0 <= j < i ==> ((#[trigger] outs@[j]) matches Ok(b) ==> b@.len()
                            == read_len(p, fields@[j].1)),
                decreases fields@.len() - i,
            {
                let (address, size) = fields[i];
                let out = read_on(&mut conn, servo_id, address, size);
                outs.push(out);
                i = i + 1;
            }
            let evs = batch_events(fields, &outs);
            state.bus = Some(conn);
            proof {
                assert(batch_explained(fields@, p, outs@, evs@));
                assert(read_result_ok(fields@, *old(state), evs@));
            }
            Ok(evs)
        },
    }
}

} // verus!
