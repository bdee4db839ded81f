//! The time of a run.

use vstd::prelude::*;
use std::time::{Duration, SystemTime, SystemTimeError, UNIX_EPOCH};
use crate::error::TrackerError;

verus! {

/// A reading of the system clock. Nothing is read from it here.
#[verifier::external_type_specification]
#[verifier::external_body]
pub struct ExSystemTime(SystemTime);

/// The error of a reading that lies before the epoch.
#[verifier::external_type_specification]
#[verifier::external_body]
pub struct ExSystemTimeError(SystemTimeError);

/// `SystemTime::now` of std. Nothing is known of what the clock shows.
#[verifier::external_body]
pub(crate) fn system_now() -> SystemTime {
    SystemTime::now()
}

/// `SystemTime::duration_since` of std, counted from the epoch. It fails for
/// a reading before the epoch.
#[verifier::external_body]
pub(crate) fn since_epoch(reading: &SystemTime) -> Result<Duration, SystemTimeError> {
    reading.duration_since(UNIX_EPOCH)
}

/// The whole seconds of a span of time, as `Duration::as_secs` of std counts
/// them: the part of a second at the end of the span is left out. A span is
/// a value of std of which nothing else is read here, so its seconds have a
/// name and no definition.
pub uninterp spec fn span_seconds(span: Duration) -> u64;

/// The time now, in whole seconds since the epoch. The only failure is a
/// clock that shows a time before the epoch.
pub fn get_current_timestamp() -> (now: Result<u64, TrackerError>)
    ensures
        now matches Err(error) ==> error == TrackerError::TimeError,
{
    let reading = system_now();
    timestamp_from_elapsed(since_epoch(&reading))
}

/// `Duration::as_secs` of std: the whole seconds of a span.
#[verifier::external_body]
pub(crate) fn whole_seconds(span: &Duration) -> (seconds: u64)
    ensures
        seconds == span_seconds(*span),
{
    span.as_secs()
}

/// The timestamp for what the clock gave as the time since the epoch: the
/// whole seconds of the span, or the failure of a clock that shows a time
/// before the epoch.
pub fn timestamp_from_elapsed(elapsed: Result<Duration, SystemTimeError>) -> (now: Result<
    u64,
    TrackerError,
>)
    ensures
        match elapsed {
            Ok(span) => now == Ok::<u64, TrackerError>(span_seconds(span)),
            Err(_) => now == Err::<u64, TrackerError>(TrackerError::TimeError),
        },
{
    match elapsed {
        Ok(span) => Ok(whole_seconds(&span)),
        Err(_) => Err(TrackerError::TimeError),
    }
}

} // verus!
