//! The payload of the score source: from a JSON document to the games of the
//! focused day.

use vstd::prelude::*;
use serde_json::Value;
use crate::eastern_time::{convert_to_eastern_time, eastern_clock};
use crate::error::{MissingPart, TrackerError};
use crate::game_processing::{FullGameDetails, GameView};
use crate::text::same_text;

verus! {

/// A JSON document of serde_json. What it holds is reached through the four
/// names below.
#[verifier::external_type_specification]
#[verifier::external_body]
pub struct ExValue(serde_json::Value);

/// The member of a JSON object under a key; `None` where the value is no
/// object or has no such member.
pub uninterp spec fn json_member(value: Value, key: Seq<char>) -> Option<Value>;

/// The text of a JSON string; `None` for every other value.
pub uninterp spec fn json_text(value: Value) -> Option<Seq<char>>;

/// The items of a JSON array; `None` for every other value.
pub uninterp spec fn json_items(value: Value) -> Option<Seq<Value>>;

/// The number of a JSON value that is an integer from 0 to `u64::MAX`; `None`
/// for every other value.
pub uninterp spec fn json_unsigned(value: Value) -> Option<u64>;

/// `Value::get` of serde_json with a text as index: the member under that
/// key of an object, and `None` where there is none or the value is no object.
#[verifier::external_body]
pub(crate) fn member<'a>(value: &'a Value, key: &str) -> (found: Option<&'a Value>)
    ensures
        match found {
            Some(inner) => json_member(*value, key@) == Some(*inner),
            None => json_member(*value, key@) is None,
        },
{
    value.get(key)
}

/// `Value::as_str` of serde_json: the text of a string, `None` for any other
/// value.
#[verifier::external_body]
pub(crate) fn as_text<'a>(value: &'a Value) -> (text: Option<&'a str>)
    ensures
        match text {
            Some(characters) => json_text(*value) == Some(characters@),
            None => json_text(*value) is None,
        },
{
    value.as_str()
}

/// `Value::as_array` of serde_json: the items of an array, `None` for any
/// other value.
#[verifier::external_body]
pub(crate) fn as_items<'a>(value: &'a Value) -> (items: Option<&'a Vec<Value>>)
    ensures
        match items {
            Some(list) => json_items(*value) == Some(list@),
            None => json_items(*value) is None,
        },
{
    value.as_array()
}

/// `Value::as_u64` of serde_json: the number of an integer that fits `u64`,
/// `None` for any other value.
#[verifier::external_body]
pub(crate) fn as_unsigned(value: &Value) -> (number: Option<u64>)
    ensures
        number == json_unsigned(*value),
{
    value.as_u64()
}

/// Key of the date that the payload is about.
pub const KEY_FOCUSED_DATE: &'static str = "focusedDate";

/// Key of the array with one entry for each date.
pub const KEY_GAMES_BY_DATE: &'static str = "gamesByDate";

/// Key of the date of an entry.
pub const KEY_DATE: &'static str = "date";

/// Key of the games of an entry.
pub const KEY_GAMES: &'static str = "games";

/// Key of the state text of a game.
pub const KEY_GAME_STATE: &'static str = "gameState";

/// Key of the start time of a game.
pub const KEY_START_TIME: &'static str = "startTimeUTC";

/// Key of the offset of the eastern zone from UTC at the time of a game.
pub const KEY_EASTERN_OFFSET: &'static str = "easternUTCOffset";

/// Key of the home team of a game.
pub const KEY_HOME_TEAM: &'static str = "homeTeam";

/// Key of the away team of a game.
pub const KEY_AWAY_TEAM: &'static str = "awayTeam";

/// Key of the abbreviation of a team.
pub const KEY_ABBREV: &'static str = "abbrev";

/// Key of the score of a team.
pub const KEY_SCORE: &'static str = "score";

/// The offset that is taken where a game names none.
pub const DEFAULT_EASTERN_OFFSET: &'static str = "-0500";

/// The text under a key, where the value is an object with a string there.
pub open spec fn text_member(value: Value, key: Seq<char>) -> Option<Seq<char>> {
    match json_member(value, key) {
        Some(inner) => json_text(inner),
        None => None,
    }
}

/// The items under a key, where the value is an object with an array there.
pub open spec fn items_member(value: Value, key: Seq<char>) -> Option<Seq<Value>> {
    match json_member(value, key) {
        Some(inner) => json_items(inner),
        None => None,
    }
}

/// The text under a key, or `fallback` where there is none.
pub open spec fn text_or(value: Value, key: Seq<char>, fallback: Seq<char>) -> Seq<char> {
    match text_member(value, key) {
        Some(text) => text,
        None => fallback,
    }
}

/// The abbreviation of the team under `side`; empty where it is missing or
/// is no text.
pub open spec fn team_abbrev(game: Value, side: Seq<char>) -> Seq<char> {
    match json_member(game, side) {
        Some(team) => text_or(team, KEY_ABBREV@, Seq::empty()),
        None => Seq::empty(),
    }
}

/// The score of the team under `side`; 0 where it is missing, is no unsigned
/// integer, or is more than the eight bits of a score hold.
pub open spec fn team_score(game: Value, side: Seq<char>) -> u8 {
    match json_member(game, side) {
        Some(team) => match json_member(team, KEY_SCORE@) {
            Some(score) => match json_unsigned(score) {
                Some(number) => if number <= 255 {
                    number as u8
                } else {
                    0
                },
                None => 0,
            },
            None => 0,
        },
        None => 0,
    }
}

/// The game that a JSON value stands for. Whatever is missing or of the wrong
/// kind takes its default: empty text, score 0, the offset `-0500`.
pub open spec fn game_of(game: Value) -> GameView {
    let start_time_utc = text_or(game, KEY_START_TIME@, Seq::empty());
    let offset = text_or(game, KEY_EASTERN_OFFSET@, DEFAULT_EASTERN_OFFSET@);
    GameView {
        home_team_abbrev: team_abbrev(game, KEY_HOME_TEAM@),
        home_team_score: team_score(game, KEY_HOME_TEAM@),
        away_team_abbrev: team_abbrev(game, KEY_AWAY_TEAM@),
        away_team_score: team_score(game, KEY_AWAY_TEAM@),
        game_state: text_or(game, KEY_GAME_STATE@, Seq::empty()),
        start_time_utc,
        readable_start_time: eastern_clock(start_time_utc, offset),
    }
}

/// Whether an entry of `gamesByDate` is the entry of `date`.
pub open spec fn is_entry_of(entry: Value, date: Seq<char>) -> bool {
    text_member(entry, KEY_DATE@) == Some(date)
}

/// Whether the entry at `at` is the first entry of `date`.
pub open spec fn is_first_entry_of(days: Seq<Value>, date: Seq<char>, at: int) -> bool {
    &&& 0 <= at < days.len()
    &&& is_entry_of(days[at], date)
    &&& forall|earlier: int| 0 <= earlier < at ==> !is_entry_of(#[trigger] days[earlier], date)
}

/// The JSON values of the games of `date`: the array `games` of the first
/// entry of that date.
pub open spec fn games_for(days: Seq<Value>, date: Seq<char>) -> Option<Seq<Value>> {
    if exists|at: int| is_first_entry_of(days, date, at) {
        items_member(days[choose|at: int| is_first_entry_of(days, date, at)], KEY_GAMES@)
    } else {
        None
    }
}

/// The JSON values of the games of the focused day, or the required part of
/// the envelope that is missing.
pub open spec fn focused_games(data: Value) -> Result<Seq<Value>, MissingPart> {
    match text_member(data, KEY_FOCUSED_DATE@) {
        None => Err(MissingPart::FocusedDate),
        Some(date) => match items_member(data, KEY_GAMES_BY_DATE@) {
            None => Err(MissingPart::GamesByDate),
            Some(days) => match games_for(days, date) {
                None => Err(MissingPart::GamesForDate),
                Some(games) => Ok(games),
            },
        },
    }
}

/// The games of the focused day of a payload.
pub open spec fn scoreboard_games(data: Value) -> Result<Seq<GameView>, TrackerError> {
    match focused_games(data) {
        Ok(games) => Ok(games.map_values(|game: Value| game_of(game))),
        Err(part) => Err(TrackerError::MalformedResponse(part)),
    }
}

/// The games of a list as plain values.
pub open spec fn game_views(games: Seq<FullGameDetails>) -> Seq<GameView> {
    games.map_values(|game: FullGameDetails| game@)
}

/// The text under a key.
pub fn text_under<'a>(value: &'a Value, key: &str) -> (text: Option<&'a str>)
    ensures
        match text {
            Some(characters) => text_member(*value, key@) == Some(characters@),
            None => text_member(*value, key@) is None,
        },
{
    match member(value, key) {
        Some(inner) => as_text(inner),
        None => None,
    }
}

/// The items under a key.
pub fn items_under<'a>(value: &'a Value, key: &str) -> (items: Option<&'a Vec<Value>>)
    ensures
        match items {
            Some(list) => items_member(*value, key@) == Some(list@),
            None => items_member(*value, key@) is None,
        },
{
    match member(value, key) {
        Some(inner) => as_items(inner),
        None => None,
    }
}

/// The text under a key, or `fallback`.
pub fn text_under_or<'a>(value: &'a Value, key: &str, fallback: &'a str) -> (text: &'a str)
    ensures
        text@ == text_or(*value, key@, fallback@),
{
    match text_under(value, key) {
        Some(characters) => characters,
        None => fallback,
    }
}

/// The abbreviation of the team under `side`.
pub fn abbrev_of<'a>(game: &'a Value, side: &str) -> (abbrev: &'a str)
    ensures
        abbrev@ == team_abbrev(*game, side@),
{
    proof {
        reveal_strlit("");
    }
    match member(game, side) {
        Some(team) => text_under_or(team, KEY_ABBREV, ""),
        None => "",
    }
}

/// The score of the team under `side`.
pub fn score_of(game: &Value, side: &str) -> (score: u8)
    ensures
        score == team_score(*game, side@),
{
    match member(game, side) {
        Some(team) => match member(team, KEY_SCORE) {
            Some(score) => match as_unsigned(score) {
                Some(number) => if number <= 255 {
                    number as u8
                } else {
                    0
                },
                None => 0,
            },
            None => 0,
        },
        None => 0,
    }
}

/// Reads one game.
pub fn parse_game(game: &Value) -> (details: FullGameDetails)
    ensures
        details@ == game_of(*game),
{
    proof {
        reveal_strlit("");
        assert(""@ =~= Seq::<char>::empty());
    }
    let game_state = text_under_or(game, KEY_GAME_STATE, "");
    let start_time_utc = text_under_or(game, KEY_START_TIME, "");
    let est_offset = text_under_or(game, KEY_EASTERN_OFFSET, DEFAULT_EASTERN_OFFSET);
    let readable_start_time = convert_to_eastern_time(start_time_utc, est_offset);
    FullGameDetails {
        home_team_abbrev: abbrev_of(game, KEY_HOME_TEAM).to_owned(),
        home_team_score: score_of(game, KEY_HOME_TEAM),
        away_team_abbrev: abbrev_of(game, KEY_AWAY_TEAM).to_owned(),
        away_team_score: score_of(game, KEY_AWAY_TEAM),
        game_state: game_state.to_owned(),
        start_time_utc: start_time_utc.to_owned(),
        readable_start_time,
    }
}

/// The array `games` of the first entry of `date`.
pub fn find_games_for<'a>(days: &'a Vec<Value>, date: &str) -> (games: Option<&'a Vec<Value>>)
    ensures
        match games {
            Some(list) => games_for(days@, date@) == Some(list@),
            None => games_for(days@, date@) is None,
        },
{
    let mut i: usize = 0;
    while i < days.len()
        invariant
            i <= days.len(),
            forall|earlier: int| 0 <= earlier < i ==> !is_entry_of(#[trigger] days@[earlier], date@),
        decreases days.len() - i,
    {
        let entry = &days[i];
        let names_date = match text_under(entry, KEY_DATE) {
            Some(text) => same_text(text, date),
            None => false,
        };
        if names_date {
            proof {
                assert(is_first_entry_of(days@, date@, i as int));
                let chosen = choose|at: int| is_first_entry_of(days@, date@, at);
                assert(is_first_entry_of(days@, date@, chosen));
                assert(chosen == i as int) by {
                    if chosen < i {
                        assert(!is_entry_of(days@[chosen], date@));
                    }
                }
            }
            return items_under(entry, KEY_GAMES);
        }
        i += 1;
    }
    proof {
        assert forall|at: int| !is_first_entry_of(days@, date@, at) by {
            if 0 <= at < days@.len() {
                assert(!is_entry_of(days@[at], date@));
            }
        }
    }
    None
}

/// Reads the games of the focused day out of a payload.
///
/// The envelope is required: `focusedDate` as text, `gamesByDate` as an
/// array, and in its first entry for the focused date an array `games`. Where
/// one of them is missing the whole payload is refused. Inside a game nothing
/// is required: what is missing or malformed takes its default.
pub fn parse_all_games_details_from_data(data: Value) -> (parsed: Result<
    Vec<FullGameDetails>,
    TrackerError,
>)
    ensures
        match parsed {
            Ok(games) => scoreboard_games(data) == Ok::<Seq<GameView>, TrackerError>(
                game_views(games@),
            ),
            Err(error) => scoreboard_games(data) == Err::<Seq<GameView>, TrackerError>(error),
        },
{
    let focused_date = match text_under(&data, KEY_FOCUSED_DATE) {
        Some(date) => date,
        None => {
            return Err(TrackerError::MalformedResponse(MissingPart::FocusedDate));
        },
    };
    let days = match items_under(&data, KEY_GAMES_BY_DATE) {
        Some(days) => days,
        None => {
            return Err(TrackerError::MalformedResponse(MissingPart::GamesByDate));
        },
    };
    let games_list = match find_games_for(days, focused_date) {
        Some(list) => list,
        None => {
            return Err(TrackerError::MalformedResponse(MissingPart::GamesForDate));
        },
    };
    let mut games: Vec<FullGameDetails> = Vec::new();
    let mut i: usize = 0;
    while i < games_list.len()
        invariant
            i <= games_list.len(),
            games@.len() == i,
            forall|k: int| 0 <= k < i ==> (#[trigger] games@[k])@ == game_of(games_list@[k]),
        decreases games_list.len() - i,
    {
        let details = parse_game(&games_list[i]);
        games.push(details);
        i += 1;
    }
    proof {
        assert(game_views(games@) =~= games_list@.map_values(|game: Value| game_of(game)));
    }
    Ok(games)
}

} // verus!
