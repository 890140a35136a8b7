//! The wall clock, in milliseconds since the Unix epoch.

use std::time::{Duration, SystemTime, UNIX_EPOCH};
use vstd::prelude::*;

verus! {

#[verifier::external_type_specification]
#[verifier::external_body]
pub struct ExSystemTime(SystemTime);

/// `SystemTime::now` of std: the time of the system clock. Nothing is said
/// of it: it differs from call to call.
#[verifier::external_body]
fn clock_now() -> SystemTime {
    SystemTime::now()
}

/// `SystemTime::duration_since` of std, against the Unix epoch: the time
/// that has passed since then, or nothing where `time` lies before it.
#[verifier::external_body]
fn since_epoch(time: SystemTime) -> Option<Duration> {
    time.duration_since(UNIX_EPOCH).ok()
}

/// `Duration::as_millis` of std: the whole milliseconds of a duration.
#[verifier::external_body]
fn whole_millis(duration: Duration) -> u128 {
    duration.as_millis()
}

/// What a reading of the clock counts as: the milliseconds since the epoch
/// where the clock gave them, and the epoch itself where the clock is set
/// before it.
pub open spec fn clock_reading(since: Option<u128>) -> u128 {
    match since {
        Some(millis) => millis,
        None => 0,
    }
}

/// The time that a reading of the clock counts as. `since` is what the clock
/// gave: the milliseconds since the epoch, or nothing where it is set before
/// the epoch.
pub fn millis_of_reading(since: Option<u128>) -> (millis: u128)
    ensures
        millis == clock_reading(since),
{
    match since {
        Some(millis) => millis,
        None => 0,
    }
}

/// The time of the system clock in milliseconds since the Unix epoch. A
/// clock that is set before the epoch reads as the epoch. The clock decides
/// what comes back, so nothing is promised of it; what is made of the
/// clock's answer is what `millis_of_reading` says.
pub fn get_system_time_as_millis() -> u128 {
    let since = match since_epoch(clock_now()) {
        Some(duration) => Some(whole_millis(duration)),
        None => None,
    };
    millis_of_reading(since)
}

} // verus!
