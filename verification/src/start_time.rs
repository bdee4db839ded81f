//! Start times: from the RFC 3339 text of the score source to a timestamp.

use vstd::prelude::*;
use chrono::DateTime;
use crate::error::StartTimeError;

verus! {

/// The error of chrono's parsers. Nothing is read from it.
#[verifier::external_type_specification]
#[verifier::external_body]
pub struct ExParseError(chrono::ParseError);

/// The instant that chrono reads from an RFC 3339 text, in seconds since the
/// epoch; `None` for a text that chrono does not accept.
pub uninterp spec fn rfc3339_timestamp(text: Seq<char>) -> Option<int>;

/// A bound on the distance from the epoch, in seconds, of an instant written
/// with a year of four digits and an offset of less than a day: more than
/// ten thousand years.
pub const MAX_INSTANT: i64 = 400_000_000_000;

/// `DateTime::parse_from_rfc3339` of chrono, followed by `DateTime::timestamp`.
///
/// The result is the named instant of the text, or chrono's error where the
/// text is refused. chrono reads a year of four digits, from 0000 to 9999,
/// and an offset of less than a day, so the instant lies less than
/// `MAX_INSTANT` seconds from the epoch.
#[verifier::external_body]
pub(crate) fn parse_rfc3339_seconds(text: &str) -> (parsed: Result<i64, chrono::ParseError>)
    ensures
        match parsed {
            Ok(seconds) => rfc3339_timestamp(text@) == Some(seconds as int)
                && -MAX_INSTANT < seconds < MAX_INSTANT,
            Err(_) => rfc3339_timestamp(text@) is None,
        },
{
    match DateTime::parse_from_rfc3339(text) {
        Ok(instant) => Ok(instant.timestamp()),
        Err(refusal) => Err(refusal),
    }
}

/// Seconds since the epoch as an unsigned number: an instant before the epoch
/// wraps around, as a cast from `i64` to `u64` does.
pub open spec fn as_unsigned(seconds: int) -> u64 {
    if seconds >= 0 {
        seconds as u64
    } else {
        (seconds + 0x1_0000_0000_0000_0000) as u64
    }
}

/// The timestamp that a start time text stands for, if any: an empty text and
/// a text that is not RFC 3339 stand for none.
pub open spec fn start_timestamp(text: Seq<char>) -> Option<u64> {
    if text.len() == 0 {
        None
    } else {
        match rfc3339_timestamp(text) {
            Some(seconds) => Some(as_unsigned(seconds)),
            None => None,
        }
    }
}

/// Why a start time text stands for no timestamp.
pub open spec fn start_time_defect(text: Seq<char>) -> Option<StartTimeError> {
    if text.len() == 0 {
        Some(StartTimeError::Empty)
    } else if rfc3339_timestamp(text) is None {
        Some(StartTimeError::Unparsable)
    } else {
        None
    }
}

/// Turns signed seconds into unsigned ones.
pub fn seconds_to_unsigned(seconds: i64) -> (unsigned: u64)
    ensures
        unsigned == as_unsigned(seconds as int),
{
    if seconds >= 0 {
        seconds as u64
    } else {
        let above_least: i64 = seconds - i64::MIN;
        above_least as u64 + 0x8000_0000_0000_0000u64
    }
}

/// Reads a start time. An empty text and a text that is not RFC 3339 are
/// errors. Every other text gives its instant, which lies less than
/// `MAX_INSTANT` seconds from the epoch: at or after the epoch the result is
/// the seconds since the epoch, before it they wrap around.
pub fn parse_start_time_to_timestamp(start_time_utc_str: &str) -> (parsed: Result<
    u64,
    StartTimeError,
>)
    ensures
        match parsed {
            Ok(timestamp) => {
                &&& start_timestamp(start_time_utc_str@) == Some(timestamp)
                &&& rfc3339_timestamp(start_time_utc_str@) matches Some(instant)
                &&& -MAX_INSTANT < instant < MAX_INSTANT
                &&& instant >= 0 ==> timestamp == instant
            },
            Err(defect) => start_time_defect(start_time_utc_str@) == Some(defect),
        },
        parsed is Ok <==> start_timestamp(start_time_utc_str@) is Some,
{
    if start_time_utc_str.is_empty() {
        return Err(StartTimeError::Empty);
    }
    match parse_rfc3339_seconds(start_time_utc_str) {
        Ok(seconds) => Ok(seconds_to_unsigned(seconds)),
        Err(_) => Err(StartTimeError::Unparsable),
    }
}

} // verus!
