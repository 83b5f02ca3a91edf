//! Session manager for servo actuators on a serial bus.
//!
//! The crate discovers devices over two incompatible wire-protocol
//! revisions, maintains at most one persistent bus connection, and decodes
//! variable-width little-endian register values. Discovery and register
//! reads report their outcome as ordered event sequences that always end
//! with a single `Finished` event.

pub mod decode;
pub mod events;
mod bus;
pub mod connection;
pub mod scan;
pub mod ports;
pub mod session;
