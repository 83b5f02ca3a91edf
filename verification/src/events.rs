//! Shared data types: discovered devices, event streams, protocol
//! versions and the operation-level error taxonomy.

use vstd::prelude::*;
use vstd::string::StrSliceExecFns;
use vstd::string::StringExecFns;

verus! {

/// Information about a discovered servo.
#[derive(Clone, Copy, Debug, PartialEq, Eq, Structural)]
pub struct ServoInfo {
    pub id: u8,
    pub model_number: u16,
}

/// Events reported while a scan runs.
#[derive(Clone, Copy, Debug, PartialEq, Eq, Structural)]
pub enum ScanEvent {
    /// A servo was found at the given ID.
    Found(ServoInfo),
    /// Progress update: which ID is currently being scanned.
    Progress { current: u8, total: u16 },
    /// Scan completed (all IDs checked or cancelled).
    Finished { cancelled: bool },
}

/// Events reported while a batch of control-table fields is read.
#[derive(Clone, Debug)]
pub enum ReadEvent {
    /// Successfully read a value at the given address.
    Value { address: u16, value: i64 },
    /// Failed to read the given address.
    Error { address: u16, message: String },
    /// All requested addresses have been read.
    Finished,
}

/// The two supported wire-protocol revisions.
#[derive(Clone, Copy, Debug, PartialEq, Eq, Structural)]
pub enum Protocol {
    V1,
    V2,
}

/// The protocol named by a caller-supplied version string: exactly
/// "1.0" and "2.0" are recognised.
pub open spec fn spec_protocol_of(s: Seq<char>) -> Option<Protocol> {
    if s == seq!['2', '.', '0'] {
        Some(Protocol::V2)
    } else if s == seq!['1', '.', '0'] {
        Some(Protocol::V1)
    } else {
        None
    }
}

/// Recognises the two supported protocol version strings.
pub fn parse_protocol(s: &str) -> (r: Option<Protocol>)
    ensures
        r == spec_protocol_of(s@),
{
    let n = s.unicode_len();
    if n != 3 {
        return None;
    }
    let c0 = s.get_char(0);
    let c1 = s.get_char(1);
    let c2 = s.get_char(2);
    if c1 == '.' && c2 == '0' {
        if c0 == '2' {
            proof {
                assert(s@ =~= seq!['2', '.', '0']);
            }
            Some(Protocol::V2)
        } else if c0 == '1' {
            proof {
                assert(s@ =~= seq!['1', '.', '0']);
            }
            Some(Protocol::V1)
        } else {
            None
        }
    } else {
        None
    }
}

/// Why a whole operation failed. Per-item troubles (an absent device, an
/// unreadable field) are reported inside the event stream instead.
#[derive(Clone, Debug)]
pub enum ServoError {
    /// The caller named a protocol other than the two known revisions.
    UnsupportedProtocol { protocol: String },
    /// The underlying transport could not be opened.
    ConnectionFailure { port: String, message: String },
    /// A read was attempted with no persistent connection open.
    NoActiveConnection,
}

impl ServoError {
    /// The user-facing description of this error.
    pub open spec fn spec_message(self) -> Seq<char> {
        match self {
            ServoError::UnsupportedProtocol { protocol } => "Unsupported protocol: "@ + protocol@,
            ServoError::ConnectionFailure { port, message } => "Failed to open port "@ + port@
                + ": "@ + message@,
            ServoError::NoActiveConnection => "No active connection"@,
        }
    }

    /// Renders the error as its user-facing description.
    pub fn message(&self) -> (r: String)
        ensures
            r@ == self.spec_message(),
    {
        match self {
            ServoError::UnsupportedProtocol { protocol } => {
                let mut s = "Unsupported protocol: ".to_owned();
                s.append(protocol.as_str());
                s
            },
            ServoError::ConnectionFailure { port, message } => {
                let mut s = "Failed to open port ".to_owned();
                s.append(port.as_str());
                s.append(": ");
                s.append(message.as_str());
                s
            },
            ServoError::NoActiveConnection => "No active connection".to_owned(),
        }
    }
}

} // verus!
