//! The start of a game as a clock time in the eastern zone, for display.

use vstd::prelude::*;
use vstd::utf8::encode_utf8;
use chrono::{DateTime, FixedOffset};
use crate::start_time::{parse_rfc3339_seconds, rfc3339_timestamp, MAX_INSTANT};
use crate::text::digit;

verus! {

/// Shown in place of the clock time where the start time is unreadable.
pub const INVALID_UTC_TIME: &'static str = "Invalid UTC time";

/// Shown in place of the clock time where the offset is unusable.
pub const INVALID_OFFSET: &'static str = "Invalid offset";

/// The twelve-hour clock at `local_seconds`, seconds since the epoch shifted
/// into the zone of the clock: the hour from 1 to 12 as it is, a colon, the
/// minute with two digits, a space, and `AM` or `PM`.
pub open spec fn clock_text(local_seconds: int) -> Seq<char> {
    let second_of_day = local_seconds % 86_400;
    let hour = second_of_day / 3_600;
    let minute = (second_of_day % 3_600) / 60;
    let hour12 = if hour % 12 == 0 {
        12
    } else {
        hour % 12
    };
    let hours = if hour12 >= 10 {
        seq![digit(hour12 / 10), digit(hour12 % 10)]
    } else {
        seq![digit(hour12)]
    };
    let half = if hour >= 12 {
        'P'
    } else {
        'A'
    };
    hours + seq![':', digit(minute / 10), digit(minute % 10), ' ', half, 'M']
}

/// `DateTime::from_timestamp`, `FixedOffset::east_opt`, `DateTime::with_timezone`
/// and `DateTime::format` of chrono, for the format `%-I:%M %p`.
///
/// The result is the twelve-hour clock of the instant in the zone that lies
/// `offset_seconds` east of UTC. chrono has every instant within 262 000
/// years of the year 0 and every offset of less than a day.
#[verifier::external_body]
pub(crate) fn clock_at_offset(instant: i64, offset_seconds: i32) -> (text: String)
    requires
        -MAX_INSTANT < instant < MAX_INSTANT,
        -86_400 < offset_seconds < 86_400,
    ensures
        text@ == clock_text(instant + offset_seconds),
{
    let zone = FixedOffset::east_opt(offset_seconds).unwrap();
    let local = DateTime::from_timestamp(instant, 0).unwrap().with_timezone(&zone);
    local.format("%-I:%M %p").to_string()
}

/// The bytes of an offset text without its colons.
pub open spec fn without_colons(bytes: Seq<u8>) -> Seq<u8> {
    bytes.filter(|byte: u8| byte != 0x3a)
}

/// Whether a character of the text starts at `at`, or the text ends there.
pub open spec fn starts_character(bytes: Seq<u8>, at: int) -> bool {
    at == bytes.len() || (0 <= at < bytes.len() && !(0x80 <= bytes[at] < 0xc0))
}

/// Whether a byte is a decimal digit.
pub open spec fn is_digit(byte: u8) -> bool {
    0x30 <= byte <= 0x39
}

/// The number that two bytes stand for: two digits, or a sign and a digit;
/// anything else counts as 0.
pub open spec fn pair_value(first: u8, second: u8) -> int {
    if is_digit(first) && is_digit(second) {
        (first - 0x30) * 10 + (second - 0x30)
    } else if first == 0x2b && is_digit(second) {
        second - 0x30
    } else if first == 0x2d && is_digit(second) {
        -(second - 0x30)
    } else {
        0
    }
}

/// Whether an offset without colons has the places of a sign, two bytes for
/// the hours and two for the minutes, each of the three starting a character.
pub open spec fn offset_is_readable(cleaned: Seq<u8>) -> bool {
    &&& cleaned.len() >= 5
    &&& starts_character(cleaned, 1)
    &&& starts_character(cleaned, 3)
    &&& starts_character(cleaned, 5)
}

/// The seconds east of UTC that a readable offset stands for.
pub open spec fn seconds_east(cleaned: Seq<u8>) -> int {
    let distance = pair_value(cleaned[1], cleaned[2]) * 3_600 + pair_value(cleaned[3], cleaned[4])
        * 60;
    if cleaned[0] == 0x2d {
        -distance
    } else {
        distance
    }
}

/// The seconds east of UTC of an offset text such as `-0500` or `-05:00`,
/// where it is readable and stands for less than a day.
pub open spec fn offset_of(text: Seq<char>) -> Option<int> {
    let cleaned = without_colons(encode_utf8(text));
    if offset_is_readable(cleaned) && -86_400 < seconds_east(cleaned) < 86_400 {
        Some(seconds_east(cleaned))
    } else {
        None
    }
}

/// What is shown as the start of a game: the clock time in the zone of the
/// offset, or a word on what is wrong. An unreadable start time is named
/// before an unusable offset.
pub open spec fn eastern_clock(start_time_utc: Seq<char>, est_offset: Seq<char>) -> Seq<char> {
    match rfc3339_timestamp(start_time_utc) {
        None => INVALID_UTC_TIME@,
        Some(instant) => match offset_of(est_offset) {
            None => INVALID_OFFSET@,
            Some(seconds) => clock_text(instant + seconds),
        },
    }
}

/// The value of a pair of bytes.
pub fn pair_number(first: u8, second: u8) -> (value: i32)
    ensures
        value == pair_value(first, second),
{
    let second_is_digit = 0x30 <= second && second <= 0x39;
    if 0x30 <= first && first <= 0x39 && second_is_digit {
        (first - 0x30) as i32 * 10 + (second - 0x30) as i32
    } else if first == 0x2b && second_is_digit {
        (second - 0x30) as i32
    } else if first == 0x2d && second_is_digit {
        -((second - 0x30) as i32)
    } else {
        0
    }
}

/// Whether a character starts at `at`, or the text ends there.
pub fn is_character_start(bytes: &Vec<u8>, at: usize) -> (starts: bool)
    ensures
        starts == starts_character(bytes@, at as int),
{
    at == bytes.len() || (at < bytes.len() && !(0x80 <= bytes[at] && bytes[at] < 0xc0))
}

/// Reads an offset text: the seconds east of UTC, or `None` where the text is
/// unreadable or stands for a day or more.
pub fn parse_offset(est_offset: &str) -> (seconds: Option<i32>)
    ensures
        match seconds {
            Some(value) => offset_of(est_offset@) == Some(value as int),
            None => offset_of(est_offset@) is None,
        },
{
    let bytes = est_offset.as_bytes();
    let ghost keep: spec_fn(u8) -> bool = |byte: u8| byte != 0x3a;
    let mut cleaned: Vec<u8> = Vec::new();
    let mut i: usize = 0;
    while i < bytes.len()
        invariant
            i <= bytes.len(),
            keep == (|byte: u8| byte != 0x3a),
            cleaned@ == bytes@.take(i as int).filter(keep),
        decreases bytes.len() - i,
    {
        proof {
            assert(bytes@.take(i + 1).drop_last() == bytes@.take(i as int));
            reveal_with_fuel(Seq::filter, 2);
        }
        if bytes[i] != 0x3a {
            cleaned.push(bytes[i]);
        }
        i += 1;
    }
    proof {
        assert(bytes@.take(bytes.len() as int) == bytes@);
        assert(cleaned@ == without_colons(encode_utf8(est_offset@)));
    }
    if cleaned.len() < 5 || !is_character_start(&cleaned, 1) || !is_character_start(&cleaned, 3)
        || !is_character_start(&cleaned, 5) {
        return None;
    }
    let hours = pair_number(cleaned[1], cleaned[2]);
    let minutes = pair_number(cleaned[3], cleaned[4]);
    let distance: i32 = hours * 3_600 + minutes * 60;
    let seconds: i32 = if cleaned[0] == 0x2d {
        -distance
    } else {
        distance
    };
    if -86_400 < seconds && seconds < 86_400 {
        Some(seconds)
    } else {
        None
    }
}

/// What is shown as the start of a game: its clock time in the zone that
/// `est_offset` names, or a word on what is wrong.
pub fn convert_to_eastern_time(start_time_utc: &str, est_offset: &str) -> (shown: String)
    ensures
        shown@ == eastern_clock(start_time_utc@, est_offset@),
{
    match parse_rfc3339_seconds(start_time_utc) {
        Err(_) => INVALID_UTC_TIME.to_owned(),
        Ok(instant) => match parse_offset(est_offset) {
            None => INVALID_OFFSET.to_owned(),
            Some(seconds) => clock_at_offset(instant, seconds),
        },
    }
}

} // verus!
