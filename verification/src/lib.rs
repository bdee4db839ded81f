//! Polling cadence for a follower of sports scores.
//!
//! The library decides, from the status kept between runs and the current
//! time, whether the score source has to be asked in this run, and how the
//! status changes once the games are known. It reads nothing and writes
//! nothing itself: a driver loads the status, performs what a [`run::Run`]
//! asks for, and stores the status that the run leaves.
//!
//! - [`status_manager`]: the status that is kept between runs.
//! - [`game_processing`]: games, the followed ones among them, their schedule.
//! - [`cadence`]: the decisions of a run, and the poll.
//! - [`run`]: one run as a sequence of steps.
//! - [`laws`]: what holds of every run.
//! - [`scoreboard`]: the payload of the score source.
//! - [`start_time`], [`eastern_time`]: start times as timestamps and as clock times.
//! - [`display`], [`text`]: the lines shown of a game.
//! - [`clock`]: the time of a run.
//! - [`selection`]: sequences from which items were taken out.
//! - [`error`]: the failures of a run.

pub mod cadence;
pub mod clock;
pub mod display;
pub mod eastern_time;
pub mod error;
pub mod game_processing;
pub mod laws;
pub mod run;
pub mod scoreboard;
pub mod selection;
pub mod start_time;
pub mod status_manager;
pub mod text;
