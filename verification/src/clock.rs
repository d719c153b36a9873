use std::time::{Duration, SystemTime, SystemTimeError, UNIX_EPOCH};

use vstd::prelude::*;

verus! {

#[verifier::external_type_specification]
#[verifier::external_body]
pub struct ExSystemTime(SystemTime);

#[verifier::external_type_specification]
#[verifier::external_body]
pub struct ExSystemTimeError(SystemTimeError);

/// How long after the Unix epoch an instant lies, as `SystemTime::duration_since` gives it.
pub uninterp spec fn since_epoch(instant: SystemTime) -> Result<Duration, SystemTimeError>;

/// The whole seconds of a duration, as `Duration::as_secs` gives them.
pub uninterp spec fn seconds_of(duration: Duration) -> u64;

/// Wraps `SystemTime::now`. Of the instant that it reads nothing is said.
#[verifier::external_body]
fn read_clock() -> SystemTime {
    SystemTime::now()
}

/// Wraps `SystemTime::duration_since` at the Unix epoch.
#[verifier::external_body]
fn time_since_epoch(instant: SystemTime) -> (elapsed: Result<Duration, SystemTimeError>)
    ensures
        elapsed == since_epoch(instant),
{
    instant.duration_since(UNIX_EPOCH)
}

/// Wraps `Duration::as_secs`.
#[verifier::external_body]
fn whole_seconds(duration: &Duration) -> (seconds: u64)
    ensures
        seconds == seconds_of(*duration),
{
    duration.as_secs()
}

/// The Unix time of an instant: whole seconds, and 0 for an instant before the epoch.
pub open spec fn unix_time(instant: SystemTime) -> i64 {
    match since_epoch(instant) {
        Ok(elapsed) => seconds_of(elapsed) as i64,
        Err(_) => 0,
    }
}

/// The Unix time that the clock shows.
pub fn now_unix() -> (now: i64)
    ensures
        exists|instant: SystemTime| now == #[trigger] unix_time(instant),
{
    let instant = read_clock();
    let ghost read = instant;
    let now: i64 = match time_since_epoch(instant) {
        Ok(elapsed) => whole_seconds(&elapsed) as i64,
        Err(_) => 0,
    };
    proof {
        assert(now == unix_time(read));
    }
    now
}

} // verus!
