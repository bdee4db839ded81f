//! The status that survives from one run to the next.

use vstd::prelude::*;
use crate::selection::strictly_ascending;
use crate::text::same_text;

verus! {

/// Text that stands for the mode in which a followed game is in progress.
pub const STATUS_WATCHING_LIVE: &'static str = "WATCHING_LIVE";

/// Text that stands for the mode in which no followed game is in progress.
pub const STATUS_NO_GAMES_LIVE: &'static str = "NO_GAMES_LIVE";

/// What one run leaves behind for the next.
#[derive(Debug, Clone, PartialEq, Eq)]
pub struct TrackerStatus {
    /// Time of the last run, in seconds since the epoch; 0 before the first run.
    pub last_run_timestamp: u64,
    /// One of the two mode texts.
    pub current_status: String,
    /// Start times of followed games that are not known to be over.
    pub game_start_timestamps: Vec<u64>,
}

/// A status as plain values.
pub struct StatusView {
    /// Time of the last run; 0 before the first run.
    pub last_run: u64,
    /// The mode text.
    pub mode: Seq<char>,
    /// The pending start times, in their order.
    pub pending: Seq<u64>,
}

impl View for TrackerStatus {
    type V = StatusView;

    open spec fn view(&self) -> StatusView {
        StatusView {
            last_run: self.last_run_timestamp,
            mode: self.current_status@,
            pending: self.game_start_timestamps@,
        }
    }
}

/// The mode text for a run that found a followed game in progress, or none.
pub open spec fn mode_text(active_game_found: bool) -> Seq<char> {
    if active_game_found {
        STATUS_WATCHING_LIVE@
    } else {
        STATUS_NO_GAMES_LIVE@
    }
}

impl StatusView {
    /// The mode is one of the two modes, and the pending start times ascend
    /// with none twice.
    pub open spec fn well_formed(self) -> bool {
        &&& (self.mode == STATUS_WATCHING_LIVE@ || self.mode == STATUS_NO_GAMES_LIVE@)
        &&& strictly_ascending(self.pending)
    }
}

impl TrackerStatus {
    /// A status of the given parts.
    pub fn new(last_run_timestamp: u64, current_status: String, game_start_timestamps: Vec<u64>) -> (status: Self)
        ensures
            status.last_run_timestamp == last_run_timestamp,
            status.current_status == current_status,
            status.game_start_timestamps == game_start_timestamps,
            status@ == (StatusView {
                last_run: last_run_timestamp,
                mode: current_status@,
                pending: game_start_timestamps@,
            }),
    {
        TrackerStatus { last_run_timestamp, current_status, game_start_timestamps }
    }

    /// The status before the first run: never run, no game in progress,
    /// nothing pending.
    pub fn default_status() -> (status: Self)
        ensures
            status@ == (StatusView {
                last_run: 0,
                mode: STATUS_NO_GAMES_LIVE@,
                pending: Seq::<u64>::empty(),
            }),
            status@.well_formed(),
    {
        TrackerStatus {
            last_run_timestamp: 0,
            current_status: STATUS_NO_GAMES_LIVE.to_owned(),
            game_start_timestamps: Vec::new(),
        }
    }

    /// Whether the mode is one of the two modes and the pending start times
    /// ascend with none twice.
    pub fn is_well_formed(&self) -> (sound: bool)
        ensures
            sound == self@.well_formed(),
    {
        if !same_text(self.current_status.as_str(), STATUS_WATCHING_LIVE) && !same_text(
            self.current_status.as_str(),
            STATUS_NO_GAMES_LIVE,
        ) {
            return false;
        }
        let pending = &self.game_start_timestamps;
        let mut i: usize = 1;
        while i < pending.len()
            invariant
                1 <= i,
                pending@ == self@.pending,
                self@.mode == STATUS_WATCHING_LIVE@ || self@.mode == STATUS_NO_GAMES_LIVE@,
                forall|j: int, k: int|
                    0 <= j < k < i && k < pending@.len() ==> pending@[j] < pending@[k],
            decreases pending.len() - i,
        {
            if pending[i - 1] >= pending[i] {
                assert(!(pending@[i - 1] < pending@[i as int]));
                return false;
            }
            assert forall|j: int, k: int| 0 <= j < k < i + 1 && k < pending@.len() implies pending@[j]
                < pending@[k] by {
                if k == i && j < i - 1 {
                    assert(pending@[j] < pending@[i - 1]);
                }
            }
            i += 1;
        }
        true
    }
}

/// What `str::trim` of std leaves of a text: the text without the white
/// space at its start and at its end.
pub uninterp spec fn trimmed(text: Seq<char>) -> Seq<char>;

/// `str::trim` of std.
#[verifier::external_body]
pub(crate) fn trim(text: &str) -> (rest: &str)
    ensures
        rest@ == trimmed(text@),
{
    text.trim()
}

/// Whether what the store holds is a status at all: contents of nothing but
/// white space are none.
pub fn holds_status(contents: &str) -> (holds: bool)
    ensures
        holds == (trimmed(contents@).len() > 0),
{
    !trim(contents).is_empty()
}

/// The status that a run starts from: the stored one, or the default status
/// where the store had none or what it had could not be read.
pub fn status_or_default(stored: Option<TrackerStatus>) -> (status: TrackerStatus)
    ensures
        match stored {
            Some(kept) => status == kept,
            None => status@ == (StatusView {
                last_run: 0,
                mode: STATUS_NO_GAMES_LIVE@,
                pending: Seq::<u64>::empty(),
            }),
        },
{
    match stored {
        Some(kept) => kept,
        None => TrackerStatus::default_status(),
    }
}

} // verus!
