//! The time of day.

use vstd::prelude::*;

verus! {

/// More nanoseconds than a `Duration` holds: its whole seconds are a 64-bit number.
pub const NANOS_LIMIT: u128 = 18_446_744_073_709_551_616_000_000_000;

/// `SystemTime::elapsed` of the start of 1970: the nanoseconds since then, or, on a
/// clock that is behind it, those until then. What the clock says is left open.
#[verifier::external_body]
fn read_clock() -> (reading: Result<u128, u128>)
    ensures
        match reading {
            Ok(since) => since < NANOS_LIMIT,
            Err(until) => until < NANOS_LIMIT,
        },
{
    match std::time::SystemTime::UNIX_EPOCH.elapsed() {
        Ok(since) => Ok(since.as_nanos()),
        Err(error) => Err(error.duration().as_nanos()),
    }
}

/// A reading of the clock as one number, negative before the start of 1970.
pub fn signed_nanos(reading: Result<u128, u128>) -> (nanos: i128)
    requires
        match reading {
            Ok(since) => since < NANOS_LIMIT,
            Err(until) => until < NANOS_LIMIT,
        },
    ensures
        nanos == match reading {
            Ok(since) => since as int,
            Err(until) => -until,
        },
{
    match reading {
        Ok(since) => since as i128,
        Err(until) => -(until as i128),
    }
}

/// The time of day, in nanoseconds since the start of 1970. What it is is left open.
pub fn now() -> (nanos: i128)
    ensures
        -NANOS_LIMIT < nanos < NANOS_LIMIT,
{
    signed_nanos(read_clock())
}

} // verus!
