//! The wall clock, read in nanoseconds.

use std::time::{Duration, SystemTime, SystemTimeError, UNIX_EPOCH};
use vstd::prelude::*;

verus! {

/// A reading of the system clock.
#[verifier::external_type_specification]
#[verifier::external_body]
pub struct ExSystemTime(SystemTime);

/// The failure to measure from a time that lies ahead.
#[verifier::external_type_specification]
#[verifier::external_body]
pub struct ExSystemTimeError(SystemTimeError);

/// `SystemTime::now`: what the clock reads. Nothing is claimed of it.
#[verifier::external_body]
fn now() -> SystemTime {
    SystemTime::now()
}

/// `SystemTime::duration_since` the Unix epoch: the time from the epoch to
/// `at`, or an error where `at` lies before it. Nothing is claimed of either.
#[verifier::external_body]
fn since_epoch(at: &SystemTime) -> Result<Duration, SystemTimeError> {
    at.duration_since(UNIX_EPOCH)
}

/// `Duration::as_nanos`: the whole of `span` in nanoseconds. Nothing is
/// claimed of the number.
#[verifier::external_body]
fn nanos(span: &Duration) -> u128 {
    span.as_nanos()
}

/// The time in nanoseconds since the Unix epoch, as far as 64 bits hold it;
/// zero for a clock that reads a time before the epoch.
pub(crate) fn nanotime() -> u64 {
    let reading = match since_epoch(&now()) {
        Ok(span) => Some(nanos(&span)),
        Err(_) => None,
    };
    timestamp(reading)
}

/// The timestamp that stands for a reading of the clock in nanoseconds: the
/// low 64 bits of the reading, and zero where there is no reading.
pub fn timestamp(reading: Option<u128>) -> (r: u64)
    ensures
        r == match reading {
            Some(nanos) => nanos % 0x1_0000_0000_0000_0000,
            None => 0,
        },
{
    match reading {
        Some(nanos) => (nanos % 0x1_0000_0000_0000_0000) as u64,
        None => 0,
    }
}

} // verus!
