//! What holds of every run, proved from the definitions that the contracts
//! of the library use.

use vstd::prelude::*;
use crate::cadence::{
    after_poll, full_refresh_due, idle, is_schedule_of, lemma_after_poll_is_selection,
    lemma_not_passed_is_selection, not_passed, polled, still_pending, utc_day,
};
use crate::game_processing::{followed, future_starts, FullGameDetails};
use crate::run::{action_in, first_phase, first_status, next_phase, Action, Phase};
use crate::selection::{
    is_selection_of, lemma_ascending_is_unique, lemma_filter_is_selection, lemma_filter_selects,
    lemma_selection_is_within, lemma_selection_of_selection, selects_exactly,
};
use crate::status_manager::StatusView;

verus! {

/// The status that a run at `now` leaves when it is not the first of its day
/// and meets `favourite_games` if it polls.
pub open spec fn later_run_outcome(
    status: StatusView,
    now: u64,
    favourite_games: Seq<FullGameDetails>,
) -> StatusView {
    if idle(status.pending, now) {
        first_status(status, now)
    } else {
        polled(first_status(status, now), now, favourite_games)
    }
}

/// The followed games are taken from the games in their order, and they are
/// exactly the games in which a followed team plays at home or away: a
/// position of the list is taken if and only if its game involves one. The
/// positions taken are handed back.
pub proof fn law_followed_games_are_exactly_selected(
    games: Seq<FullGameDetails>,
    favourites: Set<Seq<char>>,
) -> (indices: Seq<int>)
    ensures
        selects_exactly(
            indices,
            games,
            followed(games, favourites),
            |g: FullGameDetails| g.involves(favourites),
        ),
        is_selection_of(followed(games, favourites), games),
        followed(games, favourites).len() <= games.len(),
        forall|k: int|
            0 <= k < followed(games, favourites).len() ==> (#[trigger] followed(
                games,
                favourites,
            )[k]).involves(favourites) && games.contains(followed(games, favourites)[k]),
        forall|i: int|
            0 <= i < games.len() && (#[trigger] games[i]).involves(favourites) ==> followed(
                games,
                favourites,
            ).contains(games[i]),
{
    let keep = |g: FullGameDetails| g.involves(favourites);
    let kept = followed(games, favourites);
    let indices = lemma_filter_selects(games, keep);
    assert(selects_exactly(indices, games, kept, keep));
    lemma_filter_is_selection(games, keep);
    lemma_selection_is_within(kept, games);
    assert forall|k: int| 0 <= k < kept.len() implies (#[trigger] kept[k]).involves(favourites)
        && games.contains(kept[k]) by {
        let i = indices[k];
        assert(indices.contains(i));
        assert(keep(games[i]));
    }
    assert forall|i: int| 0 <= i < games.len() && (#[trigger] games[i]).involves(
        favourites,
    ) implies kept.contains(games[i]) by {
        assert(keep(games[i]));
        assert(indices.contains(i));
        let k = choose|k: int| 0 <= k < indices.len() && indices[k] == i;
        assert(kept[k] == games[i]);
    }
    indices
}

/// A filter that every item passes changes nothing.
proof fn lemma_filter_keeps_all<A>(items: Seq<A>, keep: spec_fn(A) -> bool)
    requires
        forall|i: int| 0 <= i < items.len() ==> keep(#[trigger] items[i]),
    ensures
        items.filter(keep) == items,
    decreases items.len(),
{
    reveal(Seq::filter);
    if items.len() > 0 {
        let front = items.drop_last();
        assert forall|i: int| 0 <= i < front.len() implies keep(#[trigger] front[i]) by {
            assert(front[i] == items[i]);
        }
        lemma_filter_keeps_all(front, keep);
        assert(keep(items[items.len() - 1]));
        assert(front.push(items.last()) =~= items);
    }
}

/// A run that leaves the score source alone changes nothing of the status but
/// the time of the last run, which becomes `now`, where none of the pending
/// start times has passed. (One that has passed is dropped.)
pub proof fn law_idle_run_only_records_its_time(status: StatusView, now: u64)
    requires
        first_phase(status, now) == Phase::Done,
        forall|i: int| 0 <= i < status.pending.len() ==> #[trigger] status.pending[i] >= now,
    ensures
        first_status(status, now) == (StatusView { last_run: now, ..status }),
{
    lemma_filter_keeps_all(status.pending, |timestamp: u64| timestamp >= now);
}

/// A run that leaves the score source alone keeps the mode, records its time,
/// and keeps of the pending start times those that have not passed; none of
/// those has arrived.
pub proof fn law_idle_run_outcome(status: StatusView, now: u64)
    requires
        first_phase(status, now) == Phase::Done,
    ensures
        first_status(status, now).last_run == now,
        first_status(status, now).mode == status.mode,
        first_status(status, now).pending == not_passed(status.pending, now),
        first_status(status, now).pending.len() > 0,
        forall|i: int|
            0 <= i < first_status(status, now).pending.len() ==> #[trigger] first_status(
                status,
                now,
            ).pending[i] > now,
{
    let left = not_passed(status.pending, now);
    let keep = |timestamp: u64| timestamp >= now;
    let indices = lemma_filter_selects(status.pending, keep);
    assert forall|i: int| 0 <= i < left.len() implies #[trigger] left[i] > now by {
        assert(indices.contains(indices[i]));
        assert(keep(status.pending[indices[i]]));
        assert(left[i] >= now);
    }
}

/// Running again at the same time after a run that left the score source
/// alone leaves it alone again, and the status stays as the first run left it.
pub proof fn law_idle_run_repeats(status: StatusView, now: u64)
    requires
        first_phase(status, now) == Phase::Done,
        now != 0,
    ensures
        first_phase(first_status(status, now), now) == Phase::Done,
        first_status(first_status(status, now), now) == first_status(status, now),
{
    law_idle_run_outcome(status, now);
    let left = not_passed(status.pending, now);
    lemma_filter_keeps_all(left, |timestamp: u64| timestamp >= now);
}

/// In a run that is not the first of its day the pending start times never
/// grow: what is pending after the run was pending before it, in the same
/// order, whether the run polls or not and whatever games it meets.
pub proof fn law_pending_never_grows(
    status: StatusView,
    now: u64,
    favourite_games: Seq<FullGameDetails>,
)
    requires
        !full_refresh_due(status.last_run, now),
    ensures
        is_selection_of(later_run_outcome(status, now, favourite_games).pending, status.pending),
        later_run_outcome(status, now, favourite_games).pending.len() <= status.pending.len(),
        forall|k: int|
            0 <= k < later_run_outcome(status, now, favourite_games).pending.len()
                ==> status.pending.contains(
                #[trigger] later_run_outcome(status, now, favourite_games).pending[k],
            ),
{
    let left = not_passed(status.pending, now);
    lemma_not_passed_is_selection(status.pending, now);
    if !idle(status.pending, now) {
        lemma_after_poll_is_selection(left, favourite_games);
        lemma_selection_of_selection(after_poll(left, favourite_games), left, status.pending);
    }
    lemma_selection_is_within(
        later_run_outcome(status, now, favourite_games).pending,
        status.pending,
    );
}

/// When the last run and `now` lie on different UTC days, the run at `now` is
/// the first of its day and starts by scheduling, however few seconds have
/// gone by. (Time is taken not to run backwards.)
pub proof fn law_new_day_refreshes(status: StatusView, now: u64)
    requires
        utc_day(status.last_run) != utc_day(now),
        status.last_run <= now,
    ensures
        full_refresh_due(status.last_run, now),
        first_phase(status, now) == Phase::Scheduling,
        first_status(status, now) == status,
{
}

/// One second is enough: the last second of a day and the first of the next
/// lie on different days.
pub proof fn law_midnight_refreshes(day: u64)
    requires
        day < 0xffff_ffff,
    ensures
        full_refresh_due((day * 86_400 + 86_399) as u64, ((day + 1) * 86_400) as u64),
{
}

/// A run asks for the status to be stored only once it is done. One that
/// does not leave the score source alone starts by asking for a fetch and is
/// done only after it has taken games, twice on the first run of a day; so a
/// run whose fetch fails never asks for anything to be stored. Until its
/// games come, the first run of a day holds the status as it was stored.
pub proof fn law_nothing_is_stored_before_the_games(status: StatusView, now: u64)
    ensures
        forall|phase: Phase| action_in(phase) == Action::Persist <==> phase == Phase::Done,
        first_phase(status, now) != Phase::Done ==> action_in(first_phase(status, now))
            == Action::Fetch,
        first_phase(status, now) == Phase::Done <==> !full_refresh_due(status.last_run, now)
            && idle(status.pending, now),
        action_in(next_phase(Phase::Scheduling)) == Action::Fetch,
        action_in(next_phase(Phase::Polling)) == Action::Persist,
        first_phase(status, now) == Phase::Scheduling ==> first_status(status, now) == status,
{
}

/// A status whose mode is one of the two modes and whose pending start times
/// ascend stays so through a run: at its start, through a poll, and with a
/// new schedule.
pub proof fn law_runs_keep_status_well_formed(
    status: StatusView,
    now: u64,
    favourite_games: Seq<FullGameDetails>,
    schedule: Seq<u64>,
)
    requires
        status.well_formed(),
    ensures
        first_status(status, now).well_formed(),
        polled(status, now, favourite_games).well_formed(),
        is_schedule_of(schedule, favourite_games) ==> (StatusView {
            pending: schedule,
            ..status
        }).well_formed(),
{
    lemma_not_passed_is_selection(status.pending, now);
    lemma_after_poll_is_selection(status.pending, favourite_games);
}

/// A schedule that is polled against the games it was made from stays whole:
/// each of its start times is the start of a followed game that has not
/// started, so none is dropped.
pub proof fn law_schedule_survives_its_own_games(
    schedule: Seq<u64>,
    favourite_games: Seq<FullGameDetails>,
)
    requires
        is_schedule_of(schedule, favourite_games),
    ensures
        after_poll(schedule, favourite_games) == schedule,
{
    assert forall|k: int| 0 <= k < schedule.len() implies still_pending(
        #[trigger] schedule[k],
        favourite_games,
    ) by {
        assert(schedule.to_set().contains(schedule[k]));
        assert(future_starts(favourite_games).contains(schedule[k]));
        let i = choose|i: int|
            0 <= i < favourite_games.len() && (#[trigger] favourite_games[i]).is_future_start(
                schedule[k],
            );
        assert(favourite_games[i].start() == Some(schedule[k]));
    }
    lemma_filter_keeps_all(
        schedule,
        |timestamp: u64| still_pending(timestamp, favourite_games),
    );
}

/// The followed games have one schedule only.
pub proof fn law_schedule_is_unique(
    first: Seq<u64>,
    second: Seq<u64>,
    favourite_games: Seq<FullGameDetails>,
)
    requires
        is_schedule_of(first, favourite_games),
        is_schedule_of(second, favourite_games),
    ensures
        first == second,
{
    lemma_ascending_is_unique(first, second);
}

} // verus!
