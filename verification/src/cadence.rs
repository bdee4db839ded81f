//! The polling cadence: whether a run asks the score source, and what the
//! status becomes once the games are known.

use vstd::prelude::*;
use crate::game_processing::{
    classify_state, filter_favourite_teams_details, favourite_set, followed, future_start_timestamps,
    future_starts, games_of, FullGameDetails, GameState,
};
use crate::selection::{
    is_selection_of, lemma_filter_is_selection, lemma_selection_stays_ascending, strictly_ascending,
};
use crate::start_time::parse_start_time_to_timestamp;
use crate::status_manager::{
    mode_text, StatusView, TrackerStatus, STATUS_NO_GAMES_LIVE, STATUS_WATCHING_LIVE,
};

verus! {

/// The length of a UTC day, in seconds.
pub const SECONDS_PER_DAY: u64 = 86_400;

/// The UTC calendar day of a timestamp, counted from the epoch.
pub open spec fn utc_day(timestamp: u64) -> int {
    timestamp as int / 86_400
}

/// Whether a run at `now` is the first of its day: nothing ran before, or the
/// last run was on an earlier UTC day.
pub open spec fn full_refresh_due(last_run: u64, now: u64) -> bool {
    last_run == 0 || utc_day(now) > utc_day(last_run)
}

/// The pending start times that have not passed at `now`.
pub open spec fn not_passed(pending: Seq<u64>, now: u64) -> Seq<u64> {
    pending.filter(|timestamp: u64| timestamp >= now)
}

/// Whether the start time of a pending game has arrived at `now`.
pub open spec fn start_arrived(pending: Seq<u64>, now: u64) -> bool {
    exists|i: int| 0 <= i < pending.len() && #[trigger] pending[i] <= now
}

/// Whether a run that is not the first of its day leaves the score source
/// alone: after the passed start times are dropped something is pending, and
/// no start time has arrived.
pub open spec fn idle(pending: Seq<u64>, now: u64) -> bool {
    not_passed(pending, now).len() > 0 && !start_arrived(not_passed(pending, now), now)
}

/// Whether one of the followed games is in progress: neither over nor still
/// to come.
pub open spec fn active_game_found(favourite_games: Seq<FullGameDetails>) -> bool {
    exists|i: int|
        0 <= i < favourite_games.len() && (#[trigger] favourite_games[i]).state()
            == GameState::Live
}

/// Whether a pending start time stays pending: a followed game starts at it
/// and is not over.
pub open spec fn still_pending(timestamp: u64, favourite_games: Seq<FullGameDetails>) -> bool {
    exists|i: int|
        0 <= i < favourite_games.len() && (#[trigger] favourite_games[i]).start() == Some(
            timestamp,
        ) && favourite_games[i].state() != GameState::Off
}

/// The pending start times that stay pending after a poll.
pub open spec fn after_poll(pending: Seq<u64>, favourite_games: Seq<FullGameDetails>) -> Seq<u64> {
    pending.filter(|timestamp: u64| still_pending(timestamp, favourite_games))
}

/// The status that a poll at `now` leaves, given the followed games.
pub open spec fn polled(
    status: StatusView,
    now: u64,
    favourite_games: Seq<FullGameDetails>,
) -> StatusView {
    StatusView {
        last_run: now,
        mode: mode_text(active_game_found(favourite_games)),
        pending: after_poll(status.pending, favourite_games),
    }
}

/// Whether `pending` is the schedule of the followed games: the start times
/// of those that have not started, each once, ascending.
pub open spec fn is_schedule_of(pending: Seq<u64>, favourite_games: Seq<FullGameDetails>) -> bool {
    strictly_ascending(pending) && pending.to_set() == future_starts(favourite_games)
}

/// What is left when the passed start times are dropped was pending before,
/// in the same order.
pub proof fn lemma_not_passed_is_selection(pending: Seq<u64>, now: u64)
    ensures
        is_selection_of(not_passed(pending, now), pending),
        strictly_ascending(pending) ==> strictly_ascending(not_passed(pending, now)),
{
    lemma_filter_is_selection(pending, |timestamp: u64| timestamp >= now);
    if strictly_ascending(pending) {
        lemma_selection_stays_ascending(not_passed(pending, now), pending);
    }
}

/// What a poll leaves pending was pending before it, in the same order.
pub proof fn lemma_after_poll_is_selection(
    pending: Seq<u64>,
    favourite_games: Seq<FullGameDetails>,
)
    ensures
        is_selection_of(after_poll(pending, favourite_games), pending),
        strictly_ascending(pending) ==> strictly_ascending(after_poll(pending, favourite_games)),
{
    lemma_filter_is_selection(
        pending,
        |timestamp: u64| still_pending(timestamp, favourite_games),
    );
    if strictly_ascending(pending) {
        lemma_selection_stays_ascending(after_poll(pending, favourite_games), pending);
    }
}

/// Whether a run at `current_timestamp` is the first of its UTC day.
pub fn is_first_run_today(last_run_timestamp: u64, current_timestamp: u64) -> (due: bool)
    ensures
        due == full_refresh_due(last_run_timestamp, current_timestamp),
{
    last_run_timestamp == 0 || current_timestamp / SECONDS_PER_DAY > last_run_timestamp
        / SECONDS_PER_DAY
}

/// The pending start times without those that have passed.
pub fn drop_passed_start_times(pending: &Vec<u64>, current_timestamp: u64) -> (left: Vec<u64>)
    ensures
        left@ == not_passed(pending@, current_timestamp),
{
    let ghost keep: spec_fn(u64) -> bool = |timestamp: u64| timestamp >= current_timestamp;
    let mut left: Vec<u64> = Vec::new();
    let mut i: usize = 0;
    while i < pending.len()
        invariant
            i <= pending.len(),
            keep == (|timestamp: u64| timestamp >= current_timestamp),
            left@ == pending@.take(i as int).filter(keep),
        decreases pending.len() - i,
    {
        proof {
            assert(pending@.take(i + 1).drop_last() == pending@.take(i as int));
            reveal_with_fuel(Seq::filter, 2);
        }
        if pending[i] >= current_timestamp {
            left.push(pending[i]);
        }
        i += 1;
    }
    proof {
        assert(pending@.take(pending.len() as int) == pending@);
    }
    left
}

/// Whether the start time of a pending game has arrived.
pub fn has_start_arrived(pending: &Vec<u64>, current_timestamp: u64) -> (arrived: bool)
    ensures
        arrived == start_arrived(pending@, current_timestamp),
{
    let mut i: usize = 0;
    while i < pending.len()
        invariant
            i <= pending.len(),
            forall|k: int| 0 <= k < i ==> #[trigger] pending@[k] > current_timestamp,
        decreases pending.len() - i,
    {
        if current_timestamp >= pending[i] {
            return true;
        }
        i += 1;
    }
    false
}

/// Whether one of the followed games is in progress.
pub fn any_game_active(favourite_games: &[&FullGameDetails]) -> (active: bool)
    ensures
        active == active_game_found(games_of(favourite_games@)),
{
    let mut i: usize = 0;
    while i < favourite_games.len()
        invariant
            i <= favourite_games.len(),
            forall|k: int|
                0 <= k < i ==> (#[trigger] games_of(favourite_games@)[k]).state()
                    != GameState::Live,
        decreases favourite_games.len() - i,
    {
        match classify_state(favourite_games[i].game_state.as_str()) {
            GameState::Live => {
                assert(games_of(favourite_games@)[i as int].state() == GameState::Live);
                return true;
            },
            _ => {},
        }
        i += 1;
    }
    false
}

/// Whether a followed game starts at `timestamp` and is not over.
pub fn is_still_pending(timestamp: u64, favourite_games: &[&FullGameDetails]) -> (stays: bool)
    ensures
        stays == still_pending(timestamp, games_of(favourite_games@)),
{
    let mut i: usize = 0;
    while i < favourite_games.len()
        invariant
            i <= favourite_games.len(),
            forall|k: int|
                0 <= k < i ==> !((#[trigger] games_of(favourite_games@)[k]).start() == Some(
                    timestamp,
                ) && games_of(favourite_games@)[k].state() != GameState::Off),
        decreases favourite_games.len() - i,
    {
        let game = favourite_games[i];
        assert(games_of(favourite_games@)[i as int] == *game);
        let starts_then = match parse_start_time_to_timestamp(game.start_time_utc.as_str()) {
            Ok(start) => start == timestamp,
            Err(_) => false,
        };
        if starts_then {
            match classify_state(game.game_state.as_str()) {
                GameState::Off => {},
                _ => {
                    return true;
                },
            }
        }
        i += 1;
    }
    false
}

/// The pending start times that stay pending, given the followed games.
pub fn surviving_start_times(pending: &Vec<u64>, favourite_games: &[&FullGameDetails]) -> (left:
    Vec<u64>)
    ensures
        left@ == after_poll(pending@, games_of(favourite_games@)),
{
    let ghost keep: spec_fn(u64) -> bool = |timestamp: u64|
        still_pending(timestamp, games_of(favourite_games@));
    let mut left: Vec<u64> = Vec::new();
    let mut i: usize = 0;
    while i < pending.len()
        invariant
            i <= pending.len(),
            keep == (|timestamp: u64| still_pending(timestamp, games_of(favourite_games@))),
            left@ == pending@.take(i as int).filter(keep),
        decreases pending.len() - i,
    {
        proof {
            assert(pending@.take(i + 1).drop_last() == pending@.take(i as int));
            reveal_with_fuel(Seq::filter, 2);
        }
        if is_still_pending(pending[i], favourite_games) {
            left.push(pending[i]);
        }
        i += 1;
    }
    proof {
        assert(pending@.take(pending.len() as int) == pending@);
    }
    left
}

/// The poll: brings the status up to date with the games of the day.
///
/// The mode tells whether a followed game is in progress, a pending start
/// time stays only while a followed game that starts at it is not over, and
/// the time of the last run becomes `current_timestamp`.
pub fn process_games(
    favourite_teams: &[&str],
    status: &mut TrackerStatus,
    current_timestamp: u64,
    all_games: &[FullGameDetails],
)
    ensures
        final(status)@ == polled(
            old(status)@,
            current_timestamp,
            followed(all_games@, favourite_set(favourite_teams@)),
        ),
        strictly_ascending(old(status)@.pending) ==> final(status)@.well_formed(),
{
    proof {
        lemma_after_poll_is_selection(
            status@.pending,
            followed(all_games@, favourite_set(favourite_teams@)),
        );
    }
    let favourite_games = filter_favourite_teams_details(all_games, favourite_teams);
    let active = any_game_active(favourite_games.as_slice());
    let left = surviving_start_times(&status.game_start_timestamps, favourite_games.as_slice());
    let mode = if active {
        STATUS_WATCHING_LIVE
    } else {
        STATUS_NO_GAMES_LIVE
    };
    status.last_run_timestamp = current_timestamp;
    status.current_status = mode.to_owned();
    status.game_start_timestamps = left;
}

/// The first fetch of a day: the pending start times become the schedule of
/// the followed games. Nothing else of the status changes.
pub fn refresh_game_start_timestamps(
    favourite_teams: &[&str],
    status: &mut TrackerStatus,
    all_games: &[FullGameDetails],
)
    ensures
        final(status)@.last_run == old(status)@.last_run,
        final(status)@.mode == old(status)@.mode,
        is_schedule_of(
            final(status)@.pending,
            followed(all_games@, favourite_set(favourite_teams@)),
        ),
        old(status)@.well_formed() ==> final(status)@.well_formed(),
{
    let favourite_games = filter_favourite_teams_details(all_games, favourite_teams);
    status.game_start_timestamps = future_start_timestamps(favourite_games.as_slice());
}

} // verus!
