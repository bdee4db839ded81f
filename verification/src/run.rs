//! One run, step by step: the driver performs what the run asks for and hands
//! back what came of it.

use vstd::prelude::*;
use crate::cadence::{
    drop_passed_start_times, full_refresh_due, has_start_arrived, idle, is_first_run_today,
    is_schedule_of, lemma_not_passed_is_selection, not_passed, polled, process_games,
    refresh_game_start_timestamps,
};
use crate::game_processing::{favourite_set, followed, FullGameDetails};
use crate::status_manager::{StatusView, TrackerStatus};

verus! {

/// Where a run stands.
#[derive(Debug, Clone, Copy, PartialEq, Eq, Structural)]
pub enum Phase {
    /// First run of the day: the games are needed to make the schedule.
    Scheduling,
    /// The games are needed to bring the status up to date.
    Polling,
    /// The status is ready to be stored.
    Done,
}

/// What the driver has to do next.
#[derive(Debug, Clone, Copy, PartialEq, Eq, Structural)]
pub enum Action {
    /// Fetch the games of the day and hand them to [`Run::on_games`]. If the
    /// fetch fails the run fails, and nothing is stored.
    Fetch,
    /// Store the status of the run and end the run.
    Persist,
}

/// A run in progress.
#[derive(Debug, Clone, PartialEq, Eq)]
pub struct Run {
    /// The status as it stands; it is the status to store once the run is done.
    pub status: TrackerStatus,
    /// The time of the run.
    pub now: u64,
    /// Where the run stands.
    pub phase: Phase,
}

/// The phase in which a run at `now` starts from `status`.
pub open spec fn first_phase(status: StatusView, now: u64) -> Phase {
    if full_refresh_due(status.last_run, now) {
        Phase::Scheduling
    } else if idle(status.pending, now) {
        Phase::Done
    } else {
        Phase::Polling
    }
}

/// The status with which a run at `now` starts from `status`.
///
/// The first run of a day keeps the status as it is until the games are
/// known. Every other run drops the start times that have passed; one that
/// leaves the score source alone also records its time.
pub open spec fn first_status(status: StatusView, now: u64) -> StatusView {
    match first_phase(status, now) {
        Phase::Scheduling => status,
        Phase::Polling => StatusView { pending: not_passed(status.pending, now), ..status },
        Phase::Done => StatusView {
            last_run: now,
            pending: not_passed(status.pending, now),
            ..status
        },
    }
}

/// The phase that follows once the games have come.
pub open spec fn next_phase(phase: Phase) -> Phase {
    match phase {
        Phase::Scheduling => Phase::Polling,
        Phase::Polling => Phase::Done,
        Phase::Done => Phase::Done,
    }
}

/// What a phase asks of the driver.
pub open spec fn action_in(phase: Phase) -> Action {
    match phase {
        Phase::Done => Action::Persist,
        _ => Action::Fetch,
    }
}

impl Run {
    /// Starts a run at `now` from the stored status.
    pub fn start(status: TrackerStatus, now: u64) -> (run: Run)
        ensures
            run.now == now,
            run.phase == first_phase(status@, now),
            run.status@ == first_status(status@, now),
            status@.well_formed() ==> run.status@.well_formed(),
    {
        proof {
            lemma_not_passed_is_selection(status@.pending, now);
        }
        let mut status = status;
        if is_first_run_today(status.last_run_timestamp, now) {
            return Run { status, now, phase: Phase::Scheduling };
        }
        let left = drop_passed_start_times(&status.game_start_timestamps, now);
        let arrived = has_start_arrived(&left, now);
        status.game_start_timestamps = left;
        if !arrived && status.game_start_timestamps.len() > 0 {
            status.last_run_timestamp = now;
            Run { status, now, phase: Phase::Done }
        } else {
            Run { status, now, phase: Phase::Polling }
        }
    }

    /// What the driver has to do next.
    pub fn action(&self) -> (action: Action)
        ensures
            action == action_in(self.phase),
    {
        match self.phase {
            Phase::Done => Action::Persist,
            _ => Action::Fetch,
        }
    }

    /// Takes the games that the driver fetched.
    ///
    /// While scheduling, the pending start times become the schedule of the
    /// followed games and the run goes on to poll. While polling, the status
    /// is brought up to date and the run is done. A run that is done stays as
    /// it is.
    pub fn on_games(&mut self, favourite_teams: &[&str], all_games: &[FullGameDetails])
        ensures
            final(self).now == old(self).now,
            final(self).phase == next_phase(old(self).phase),
            old(self).phase == Phase::Scheduling ==> {
                &&& final(self).status@.last_run == old(self).status@.last_run
                &&& final(self).status@.mode == old(self).status@.mode
                &&& is_schedule_of(
                    final(self).status@.pending,
                    followed(all_games@, favourite_set(favourite_teams@)),
                )
            },
            old(self).phase == Phase::Polling ==> final(self).status@ == polled(
                old(self).status@,
                old(self).now,
                followed(all_games@, favourite_set(favourite_teams@)),
            ),
            old(self).phase == Phase::Done ==> final(self).status == old(self).status,
            old(self).status@.well_formed() ==> final(self).status@.well_formed(),
    {
        match self.phase {
            Phase::Scheduling => {
                refresh_game_start_timestamps(favourite_teams, &mut self.status, all_games);
                self.phase = Phase::Polling;
            },
            Phase::Polling => {
                process_games(favourite_teams, &mut self.status, self.now, all_games);
                self.phase = Phase::Done;
            },
            Phase::Done => {},
        }
    }
}

} // verus!
