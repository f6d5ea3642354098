//! The time of day.

use std::time::{Duration, SystemTime, SystemTimeError, UNIX_EPOCH};
use vstd::prelude::*;

verus! {

/// `std::time::SystemTime`, a reading of the clock.
#[verifier::external_type_specification]
#[verifier::external_body]
pub struct ExSystemTime(std::time::SystemTime);

/// `std::time::SystemTimeError`, which a clock gives that stands before 1970.
#[verifier::external_type_specification]
#[verifier::external_body]
pub struct ExSystemTimeError(std::time::SystemTimeError);

/// `SystemTime::now`. Nothing is said of what the clock shows.
pub assume_specification[ std::time::SystemTime::now ]() -> (r: std::time::SystemTime)
;

/// `Duration::as_secs`. Nothing is said of how long a stretch is.
pub assume_specification[ std::time::Duration::as_secs ](duration: &std::time::Duration) -> (r: u64)
;

/// `SystemTime::duration_since` the start of 1970. Nothing is said of how long
/// ago that is.
#[verifier::external_body]
fn since_epoch(time: SystemTime) -> (r: Result<Duration, SystemTimeError>) {
    time.duration_since(UNIX_EPOCH)
}

/// The timestamp of a clock that stands so many seconds after the start of 1970,
/// or before it.
pub open spec fn timestamp_of(since_epoch: Option<u64>) -> i64 {
    match since_epoch {
        Some(seconds) => seconds as i64,
        None => 0,
    }
}

/// The timestamp of a clock that stands so many seconds after the start of 1970.
/// A clock that stands before it has the timestamp zero.
pub fn timestamp(since_epoch: Option<u64>) -> (r: i64)
    ensures
        r == timestamp_of(since_epoch),
{
    match since_epoch {
        Some(seconds) => seconds as i64,
        None => 0,
    }
}

/// The timestamp of now: whole seconds since the start of 1970.
pub fn now() -> (r: i64)
    ensures
        exists|reading: Option<u64>| r == #[trigger] timestamp_of(reading),
{
    let reading: Option<u64> = match since_epoch(SystemTime::now()) {
        Ok(duration) => Some(duration.as_secs()),
        Err(_) => None,
    };
    timestamp(reading)
}

/// A timestamp is the number of seconds that the clock shows, as far as it can be
/// written, and zero where the clock shows none.
pub proof fn law_timestamps(seconds: u64)
    ensures
        seconds <= i64::MAX ==> timestamp_of(Some(seconds)) == seconds,
        timestamp_of(None) == 0,
{
}

} // verus!
