//! Games as the score source gives them, and the choice of the followed ones.

use vstd::prelude::*;
use crate::error::TrackerError;
use crate::selection::strictly_ascending;
use crate::start_time::{parse_start_time_to_timestamp, start_timestamp};
use crate::text::same_text;

verus! {

/// Raw state text of a game that has not started.
pub const STATE_FUTURE: &'static str = "FUT";

/// Raw state text of a game that is over.
pub const STATE_OFF: &'static str = "OFF";

/// One game of the day.
#[derive(Debug, Clone, PartialEq, Eq)]
pub struct FullGameDetails {
    pub home_team_abbrev: String,
    pub home_team_score: u8,
    pub away_team_abbrev: String,
    pub away_team_score: u8,
    /// State text as the score source gave it.
    pub game_state: String,
    /// Start of the game, RFC 3339 text; empty where the source gave none.
    pub start_time_utc: String,
    /// Start of the game as a clock time in the eastern zone, for display.
    pub readable_start_time: String,
}

/// A game as plain values.
pub struct GameView {
    pub home_team_abbrev: Seq<char>,
    pub home_team_score: u8,
    pub away_team_abbrev: Seq<char>,
    pub away_team_score: u8,
    pub game_state: Seq<char>,
    pub start_time_utc: Seq<char>,
    pub readable_start_time: Seq<char>,
}

impl View for FullGameDetails {
    type V = GameView;

    open spec fn view(&self) -> GameView {
        GameView {
            home_team_abbrev: self.home_team_abbrev@,
            home_team_score: self.home_team_score,
            away_team_abbrev: self.away_team_abbrev@,
            away_team_score: self.away_team_score,
            game_state: self.game_state@,
            start_time_utc: self.start_time_utc@,
            readable_start_time: self.readable_start_time@,
        }
    }
}

/// What a game's state text means for polling.
#[derive(Debug, Clone, Copy, PartialEq, Eq, Structural)]
pub enum GameState {
    /// Scheduled, not started.
    Future,
    /// In progress, or in a state this library does not know: it still needs watching.
    Live,
    /// Over.
    Off,
}

/// The meaning of a state text. Every text but the two known ones counts as live.
pub open spec fn game_state_of(raw: Seq<char>) -> GameState {
    if raw == STATE_FUTURE@ {
        GameState::Future
    } else if raw == STATE_OFF@ {
        GameState::Off
    } else {
        GameState::Live
    }
}

/// The names in a list of followed teams, as a set.
pub open spec fn favourite_set(favourite_teams: Seq<&str>) -> Set<Seq<char>> {
    Set::new(
        |name: Seq<char>|
            exists|i: int|
                0 <= i < favourite_teams.len() && (#[trigger] favourite_teams[i])@ == name,
    )
}

impl FullGameDetails {
    /// The state of the game.
    pub open spec fn state(&self) -> GameState {
        game_state_of(self.game_state@)
    }

    /// The timestamp of the start of the game, where its start time is readable.
    pub open spec fn start(&self) -> Option<u64> {
        start_timestamp(self.start_time_utc@)
    }

    /// Whether the game has not started and starts at `timestamp`.
    pub open spec fn is_future_start(&self, timestamp: u64) -> bool {
        self.state() == GameState::Future && self.start() == Some(timestamp)
    }

    /// Whether the home team or the away team is among `favourites`.
    pub open spec fn involves(&self, favourites: Set<Seq<char>>) -> bool {
        favourites.contains(self.home_team_abbrev@) || favourites.contains(self.away_team_abbrev@)
    }
}

/// The games that a list of borrowed games refers to.
pub open spec fn games_of(borrowed: Seq<&FullGameDetails>) -> Seq<FullGameDetails> {
    borrowed.map_values(|g: &FullGameDetails| *g)
}

/// The followed games among `games`, in their order.
pub open spec fn followed(games: Seq<FullGameDetails>, favourites: Set<Seq<char>>) -> Seq<
    FullGameDetails,
> {
    games.filter(|g: FullGameDetails| g.involves(favourites))
}

/// The start times of the games that have not started.
pub open spec fn future_starts(games: Seq<FullGameDetails>) -> Set<u64> {
    Set::new(
        |timestamp: u64|
            exists|i: int|
                0 <= i < games.len() && (#[trigger] games[i]).is_future_start(timestamp),
    )
}

/// Tells what a state text means.
pub fn classify_state(raw: &str) -> (state: GameState)
    ensures
        state == game_state_of(raw@),
{
    if same_text(raw, STATE_FUTURE) {
        GameState::Future
    } else if same_text(raw, STATE_OFF) {
        GameState::Off
    } else {
        GameState::Live
    }
}

/// Whether `name` is one of the followed teams.
pub fn is_favourite_team(name: &str, favourite_teams: &[&str]) -> (found: bool)
    ensures
        found == favourite_set(favourite_teams@).contains(name@),
{
    let mut i: usize = 0;
    while i < favourite_teams.len()
        invariant
            i <= favourite_teams.len(),
            forall|j: int| 0 <= j < i ==> (#[trigger] favourite_teams@[j])@ != name@,
        decreases favourite_teams.len() - i,
    {
        if same_text(favourite_teams[i], name) {
            return true;
        }
        i += 1;
    }
    false
}

/// The followed games among `games`: those in which the home team or the away
/// team is one of `favourite_teams`, in the order of `games`.
pub fn filter_favourite_teams_details<'a>(
    games: &'a [FullGameDetails],
    favourite_teams: &[&str],
) -> (kept: Vec<&'a FullGameDetails>)
    ensures
        games_of(kept@) == followed(games@, favourite_set(favourite_teams@)),
{
    let ghost followed: spec_fn(FullGameDetails) -> bool = |g: FullGameDetails|
        g.involves(favourite_set(favourite_teams@));
    let mut kept: Vec<&'a FullGameDetails> = Vec::new();
    let mut i: usize = 0;
    while i < games.len()
        invariant
            i <= games.len(),
            followed == (|g: FullGameDetails| g.involves(favourite_set(favourite_teams@))),
            games_of(kept@) == games@.take(i as int).filter(followed),
        decreases games.len() - i,
    {
        let game = &games[i];
        let keep = is_favourite_team(game.home_team_abbrev.as_str(), favourite_teams)
            || is_favourite_team(game.away_team_abbrev.as_str(), favourite_teams);
        proof {
            assert(games@.take(i + 1).drop_last() == games@.take(i as int));
            reveal_with_fuel(Seq::filter, 2);
        }
        if keep {
            kept.push(game);
        }
        i += 1;
    }
    proof {
        assert(games@.take(games.len() as int) == games@);
    }
    kept
}

/// Puts `value` into a list before its first item that is not smaller,
/// unless that item is `value` itself. A strictly ascending list stays so:
/// the value comes to its place, and a value that the list holds already is
/// not put in again.
pub fn insert_ascending(list: &mut Vec<u64>, value: u64)
    ensures
        final(list)@.to_set() == old(list)@.to_set().insert(value),
        strictly_ascending(old(list)@) ==> strictly_ascending(final(list)@),
{
    let ghost before = list@;
    let mut at: usize = 0;
    while at < list.len() && list[at] < value
        invariant
            at <= list.len(),
            list@ == before,
            forall|k: int| 0 <= k < at ==> list@[k] < value,
        decreases list.len() - at,
    {
        at += 1;
    }
    if at < list.len() && list[at] == value {
        proof {
            assert(before.to_set().contains(value)) by {
                assert(before[at as int] == value);
            }
            assert(before.to_set().insert(value) =~= before.to_set());
        }
    } else {
        list.insert(at, value);
        proof {
            let after = list@;
            assert(after == before.insert(at as int, value));
            if strictly_ascending(before) {
                assert forall|j: int, k: int| 0 <= j < k < after.len() implies after[j]
                    < after[k] by {
                    if j < at {
                        assert(after[j] == before[j]);
                    } else if j > at {
                        assert(after[j] == before[j - 1]);
                    }
                    if k < at {
                        assert(after[k] == before[k]);
                    } else if k > at {
                        assert(after[k] == before[k - 1]);
                    }
                }
            }
            assert forall|v: u64| after.to_set().contains(v) <==> before.to_set().insert(
                value,
            ).contains(v) by {
                if after.contains(v) {
                    let k = choose|k: int| 0 <= k < after.len() && after[k] == v;
                    if k < at {
                        assert(before[k] == v);
                    } else if k > at {
                        assert(before[k - 1] == v);
                    }
                }
                if before.contains(v) {
                    let k = choose|k: int| 0 <= k < before.len() && before[k] == v;
                    if k < at {
                        assert(after[k] == v);
                    } else {
                        assert(after[k + 1] == v);
                    }
                }
                if v == value {
                    assert(after[at as int] == v);
                }
            }
            assert(after.to_set() =~= before.to_set().insert(value));
        }
    }
}

/// What one more game adds to the start times of the games that have not
/// started.
proof fn lemma_future_starts_step(games: Seq<FullGameDetails>, count: int)
    requires
        0 <= count < games.len(),
    ensures
        future_starts(games.take(count + 1)) == if games[count].state() == GameState::Future
            && games[count].start() is Some {
            future_starts(games.take(count)).insert(games[count].start()->0)
        } else {
            future_starts(games.take(count))
        },
{
    let shorter = games.take(count);
    let longer = games.take(count + 1);
    let game = games[count];
    let expected = if game.state() == GameState::Future && game.start() is Some {
        future_starts(shorter).insert(game.start()->0)
    } else {
        future_starts(shorter)
    };
    assert forall|v: u64| future_starts(longer).contains(v) <==> expected.contains(v) by {
        if future_starts(longer).contains(v) {
            let i = choose|i: int|
                0 <= i < longer.len() && (#[trigger] longer[i]).is_future_start(v);
            if i < count {
                assert(shorter[i].is_future_start(v));
            }
        }
        if future_starts(shorter).contains(v) {
            let i = choose|i: int|
                0 <= i < shorter.len() && (#[trigger] shorter[i]).is_future_start(v);
            assert(longer[i].is_future_start(v));
        }
        if game.is_future_start(v) {
            assert(longer[count].is_future_start(v));
        }
    }
    assert(future_starts(longer) =~= expected);
}

/// The start times of those of `games` that have not started and whose start
/// time is readable: each once, in ascending order.
pub fn future_start_timestamps(games: &[&FullGameDetails]) -> (starts: Vec<u64>)
    ensures
        strictly_ascending(starts@),
        starts@.to_set() == future_starts(games_of(games@)),
{
    let mut starts: Vec<u64> = Vec::new();
    let mut i: usize = 0;
    proof {
        assert(future_starts(games_of(games@).take(0)) =~= Set::<u64>::empty());
        assert(starts@.to_set() =~= Set::<u64>::empty());
    }
    while i < games.len()
        invariant
            i <= games.len(),
            strictly_ascending(starts@),
            starts@.to_set() == future_starts(games_of(games@).take(i as int)),
        decreases games.len() - i,
    {
        let game = games[i];
        proof {
            lemma_future_starts_step(games_of(games@), i as int);
        }
        match classify_state(game.game_state.as_str()) {
            GameState::Future => {
                match parse_start_time_to_timestamp(game.start_time_utc.as_str()) {
                    Ok(timestamp) => {
                        insert_ascending(&mut starts, timestamp);
                    },
                    Err(_) => {},
                }
            },
            _ => {},
        }
        i += 1;
    }
    proof {
        assert(games_of(games@).take(games.len() as int) == games_of(games@));
    }
    starts
}

/// Borrows each game of a list.
pub fn borrow_games<'a>(games: &'a [FullGameDetails]) -> (borrowed: Vec<&'a FullGameDetails>)
    ensures
        games_of(borrowed@) == games@,
{
    let mut borrowed: Vec<&'a FullGameDetails> = Vec::new();
    let mut i: usize = 0;
    while i < games.len()
        invariant
            i <= games.len(),
            borrowed@.len() == i,
            games_of(borrowed@) == games@.take(i as int),
        decreases games.len() - i,
    {
        let ghost prior = borrowed@;
        borrowed.push(&games[i]);
        proof {
            assert forall|k: int| 0 <= k < i + 1 implies games_of(borrowed@)[k] == games@.take(
                i + 1,
            )[k] by {
                if k < i {
                    assert(games_of(prior)[k] == games@.take(i as int)[k]);
                    assert(borrowed@[k] == prior[k]);
                }
            }
            assert(games_of(borrowed@) =~= games@.take(i + 1));
        }
        i += 1;
    }
    proof {
        assert(games@.take(games.len() as int) == games@);
    }
    borrowed
}

/// The start times of the games that have not started, each once, in
/// ascending order. A game whose start time is empty or unreadable adds none.
/// The result is always `Ok`.
pub fn extract_future_game_start_timestamps(all_games: &[FullGameDetails]) -> (extracted: Result<
    Vec<u64>,
    TrackerError,
>)
    ensures
        extracted matches Ok(starts) && strictly_ascending(starts@) && starts@.to_set()
            == future_starts(all_games@),
{
    let borrowed = borrow_games(all_games);
    Ok(future_start_timestamps(borrowed.as_slice()))
}

} // verus!
