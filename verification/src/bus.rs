//! Trusted boundary to the device-bus SDK.
//!
//! Each wrapper makes one call into `dynamixel_sdk` and converts the
//! outcome to plain values. Everything the bus answers depends on what is
//! attached to the serial line, so the contracts promise nothing about
//! success; they state only what the SDK's own checks guarantee of a
//! successful reply.

use vstd::prelude::*;
use std::time::Duration;

verus! {

#[verifier::external_type_specification]
#[verifier::external_body]
pub struct ExBusV1(dynamixel_sdk::v1::Bus);

#[verifier::external_type_specification]
#[verifier::external_body]
pub struct ExBusV2(dynamixel_sdk::v2::Bus);

/// Relies on dynamixel_sdk::v1::new, BusBuilder::timeout and
/// BusBuilder::connect: opens the port at the given baud rate with the
/// given response timeout; the error is the serial layer's description.
#[verifier::external_body]
pub(crate) fn v1_connect(port: &str, baudrate: u32, timeout_ms: u64) -> (r: Result<
    dynamixel_sdk::v1::Bus,
    String,
>) {
    dynamixel_sdk::v1::new(port, baudrate)
        .timeout(Duration::from_millis(timeout_ms))
        .connect()
        .map_err(|e| format!("{}", e))
}

/// Relies on dynamixel_sdk::v2::new, BusBuilder::timeout and
/// BusBuilder::connect: opens the port at the given baud rate with the
/// given response timeout; the error is the serial layer's description.
#[verifier::external_body]
pub(crate) fn v2_connect(port: &str, baudrate: u32, timeout_ms: u64) -> (r: Result<
    dynamixel_sdk::v2::Bus,
    String,
>) {
    dynamixel_sdk::v2::new(port, baudrate)
        .timeout(Duration::from_millis(timeout_ms))
        .connect()
        .map_err(|e| format!("{}", e))
}

/// Relies on dynamixel_sdk::v1::Bus::ping: on success the IDs of the
/// devices that answered; an error stands for an absent or silent device.
#[verifier::external_body]
pub(crate) fn v1_ping(bus: &mut dynamixel_sdk::v1::Bus, id: u8) -> (r: Result<Vec<u8>, String>) {
    bus.ping(id).map_err(|e| format!("{:?}", e))
}

/// Relies on dynamixel_sdk::v2::Bus::ping: on success the IDs of the
/// devices that answered, in no promised order (the SDK hands back a hash
/// map); an error stands for an absent or silent device.
#[verifier::external_body]
pub(crate) fn v2_ping(bus: &mut dynamixel_sdk::v2::Bus, id: u8) -> (r: Result<Vec<u8>, String>) {
    bus.ping(id).map(|m| m.into_keys().collect()).map_err(|e| format!("{:?}", e))
}

/// Relies on dynamixel_sdk::v1::Bus::read: on success the returned bytes
/// are exactly `length` long, since the SDK rejects a reply of any other
/// length.
#[verifier::external_body]
pub(crate) fn v1_read(bus: &mut dynamixel_sdk::v1::Bus, id: u8, address: u8, length: u8) -> (r:
    Result<Vec<u8>, String>)
    ensures
        r matches Ok(b) ==> b@.len() == length as int,
{
    bus.read(id, address, length).map_err(|e| format!("{:?}", e))
}

/// Relies on dynamixel_sdk::v2::Bus::read: on success the returned bytes
/// are exactly `length` long, since the SDK rejects a reply of any other
/// length.
#[verifier::external_body]
pub(crate) fn v2_read(bus: &mut dynamixel_sdk::v2::Bus, id: u8, address: u16, length: u16) -> (r:
    Result<Vec<u8>, String>)
    ensures
        r matches Ok(b) ==> b@.len() == length as int,
{
    bus.read(id, address, length).map_err(|e| format!("{:?}", e))
}

} // verus!
