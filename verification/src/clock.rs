//! What the machine decides: the wall clock, read as a plain number, and the
//! byte order of 16-bit values.

use vstd::prelude::*;

verus! {

/// The current time in nanoseconds since the Unix epoch.
///
/// Calls `time::UtcDateTime::now` and converts the reading with
/// `UtcDateTime::unix_timestamp_nanos`. Nothing is claimed of the value: two
/// readings may differ in either direction.
#[verifier::external_body]
pub(crate) fn utc_now_nanos() -> (now: i128) {
    time::UtcDateTime::now().unix_timestamp_nanos()
}

/// The current time in nanoseconds since the Unix epoch, or nothing if the
/// system clock stands before the epoch.
///
/// Calls `std::time::SystemTime::now` and measures the reading against
/// `UNIX_EPOCH` with `duration_since` and `as_nanos`. Nothing is claimed of
/// the value.
#[verifier::external_body]
pub(crate) fn system_time_nanos() -> (now: Option<u128>) {
    match std::time::SystemTime::now().duration_since(std::time::UNIX_EPOCH) {
        Ok(elapsed) => Some(elapsed.as_nanos()),
        Err(_) => None,
    }
}

/// A 16-bit value with its two bytes exchanged.
pub open spec fn swapped(x: u16) -> u16 {
    ((x % 256) * 256 + x / 256) as u16
}

/// A value converted from the byte order of the machine to big endian.
///
/// Calls `u16::to_be`, which leaves the value as it is on a big-endian
/// machine and exchanges its bytes on a little-endian one.
#[verifier::external_body]
pub(crate) fn u16_to_be(x: u16) -> (r: u16)
    ensures
        r == x || r == swapped(x),
{
    x.to_be()
}

/// A value converted from big endian to the byte order of the machine.
///
/// Calls `u16::from_be`, which leaves the value as it is on a big-endian
/// machine and exchanges its bytes on a little-endian one.
#[verifier::external_body]
pub(crate) fn u16_from_be(x: u16) -> (r: u16)
    ensures
        r == x || r == swapped(x),
{
    u16::from_be(x)
}

} // verus!
