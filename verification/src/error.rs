//! The ways in which a run can fail.

use vstd::prelude::*;

verus! {

/// The part of a score payload that was required and not found.
#[derive(Debug, Clone, Copy, PartialEq, Eq, Structural)]
pub enum MissingPart {
    /// `focusedDate` is absent or is not text.
    FocusedDate,
    /// `gamesByDate` is absent or is not an array.
    GamesByDate,
    /// No entry of `gamesByDate` for the focused date holds an array `games`.
    GamesForDate,
}

/// Why a run ended without success.
#[derive(Debug, Clone, Copy, PartialEq, Eq, Structural)]
pub enum TrackerError {
    /// The score source could not be reached.
    NetworkError,
    /// The score source answered, but not with the envelope that is required.
    MalformedResponse(MissingPart),
    /// The stored status could not be read or written.
    StoreError,
    /// The system clock gave no time.
    TimeError,
}

/// Why a start time could not be turned into a timestamp.
#[derive(Debug, Clone, Copy, PartialEq, Eq, Structural)]
pub enum StartTimeError {
    /// The text is empty.
    Empty,
    /// The text is not an RFC 3339 date and time.
    Unparsable,
}

pub const MESSAGE_NETWORK: &'static str = "The score source could not be reached";

pub const MESSAGE_NO_FOCUSED_DATE: &'static str =
    "Response missing 'focusedDate' field or it's not a string";

pub const MESSAGE_NO_GAMES_BY_DATE: &'static str =
    "Response missing 'gamesByDate' field or it's not an array";

pub const MESSAGE_NO_GAMES_FOR_DATE: &'static str = "No 'games' array found for the focused date";

pub const MESSAGE_STORE: &'static str = "The stored status could not be read or written";

pub const MESSAGE_TIME: &'static str = "The system clock shows a time before the epoch";

pub const MESSAGE_EMPTY_START_TIME: &'static str = "Empty start time string";

pub const MESSAGE_UNPARSABLE_START_TIME: &'static str = "Start time is not an RFC 3339 date and time";

impl TrackerError {
    /// The message for a reader.
    pub open spec fn message_of(self) -> Seq<char> {
        match self {
            TrackerError::NetworkError => MESSAGE_NETWORK@,
            TrackerError::MalformedResponse(MissingPart::FocusedDate) => MESSAGE_NO_FOCUSED_DATE@,
            TrackerError::MalformedResponse(MissingPart::GamesByDate) => MESSAGE_NO_GAMES_BY_DATE@,
            TrackerError::MalformedResponse(MissingPart::GamesForDate) => MESSAGE_NO_GAMES_FOR_DATE@,
            TrackerError::StoreError => MESSAGE_STORE@,
            TrackerError::TimeError => MESSAGE_TIME@,
        }
    }

    /// The message for a reader.
    pub fn message(&self) -> (text: String)
        ensures
            text@ == self.message_of(),
    {
        let text = match self {
            TrackerError::NetworkError => MESSAGE_NETWORK,
            TrackerError::MalformedResponse(MissingPart::FocusedDate) => MESSAGE_NO_FOCUSED_DATE,
            TrackerError::MalformedResponse(MissingPart::GamesByDate) => MESSAGE_NO_GAMES_BY_DATE,
            TrackerError::MalformedResponse(MissingPart::GamesForDate) => MESSAGE_NO_GAMES_FOR_DATE,
            TrackerError::StoreError => MESSAGE_STORE,
            TrackerError::TimeError => MESSAGE_TIME,
        };
        text.to_owned()
    }
}

impl StartTimeError {
    /// The message for a reader.
    pub open spec fn message_of(self) -> Seq<char> {
        match self {
            StartTimeError::Empty => MESSAGE_EMPTY_START_TIME@,
            StartTimeError::Unparsable => MESSAGE_UNPARSABLE_START_TIME@,
        }
    }

    /// The message for a reader.
    pub fn message(&self) -> (text: String)
        ensures
            text@ == self.message_of(),
    {
        let text = match self {
            StartTimeError::Empty => MESSAGE_EMPTY_START_TIME,
            StartTimeError::Unparsable => MESSAGE_UNPARSABLE_START_TIME,
        };
        text.to_owned()
    }
}

} // verus!
