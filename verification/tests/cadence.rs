use game_tracker::cadence::{
    any_game_active, drop_passed_start_times, has_start_arrived, is_first_run_today,
    is_still_pending, process_games, refresh_game_start_timestamps, surviving_start_times,
    SECONDS_PER_DAY,
};
use game_tracker::error::TrackerError;
use game_tracker::game_processing::FullGameDetails;
use game_tracker::run::{Action, Phase, Run};
use game_tracker::status_manager::{
    TrackerStatus, STATUS_NO_GAMES_LIVE, STATUS_WATCHING_LIVE,
};

/// 2024-01-15T10:00:00Z
const T: u64 = 1_705_312_800;

const AT_T_PLUS_HOUR: &str = "2024-01-15T11:00:00Z";

const AT_T_PLUS_TWO_HOURS: &str = "2024-01-15T12:00:00Z";

fn cadence_game(home: &str, away: &str, state: &str, start: &str) -> FullGameDetails {
    FullGameDetails {
        home_team_abbrev: home.to_string(),
        home_team_score: 0,
        away_team_abbrev: away.to_string(),
        away_team_score: 0,
        game_state: state.to_string(),
        start_time_utc: start.to_string(),
        readable_start_time: String::new(),
    }
}

fn cadence_status(last_run: u64, mode: &str, pending: Vec<u64>) -> TrackerStatus {
    TrackerStatus::new(last_run, mode.to_string(), pending)
}

#[test]
fn seconds_per_day_is_86400() {
    assert_eq!(SECONDS_PER_DAY, 86_400);
}

#[test]
fn first_run_ever_is_first_run_today() {
    assert!(is_first_run_today(0, T));
    assert!(is_first_run_today(0, 0));
}

#[test]
fn same_day_is_not_first_run_today() {
    assert!(!is_first_run_today(T, T + 10));
    assert!(!is_first_run_today(T, T));
    // 2024-01-15T00:00:00Z to 2024-01-15T23:59:59Z
    assert!(!is_first_run_today(1_705_276_800, 1_705_363_199));
}

#[test]
fn one_second_over_midnight_is_first_run_today() {
    // 2024-01-15T23:59:59Z, then 2024-01-16T00:00:00Z
    assert!(is_first_run_today(1_705_363_199, 1_705_363_200));
}

#[test]
fn a_day_later_is_first_run_today() {
    assert!(is_first_run_today(T, T + 86_400));
    assert!(is_first_run_today(T, T + 10 * 86_400));
}

#[test]
fn clock_set_back_to_an_earlier_day_is_not_first_run_today() {
    assert!(!is_first_run_today(T, T - 86_400));
}

#[test]
fn passed_start_times_are_dropped() {
    let pending = vec![T - 10, T, T + 3600];
    assert_eq!(drop_passed_start_times(&pending, T), vec![T, T + 3600]);
    assert_eq!(drop_passed_start_times(&pending, T + 1), vec![T + 3600]);
    assert_eq!(drop_passed_start_times(&pending, T + 3601), Vec::<u64>::new());
    assert_eq!(drop_passed_start_times(&Vec::new(), T), Vec::<u64>::new());
}

#[test]
fn dropping_keeps_the_order_of_an_unsorted_list() {
    let pending = vec![T + 7200, T - 1, T + 3600, T + 7200];
    assert_eq!(drop_passed_start_times(&pending, T), vec![T + 7200, T + 3600, T + 7200]);
}

#[test]
fn start_arrives_at_its_second() {
    assert!(has_start_arrived(&vec![T + 3600], T + 3600));
    assert!(has_start_arrived(&vec![T + 3600], T + 3601));
    assert!(!has_start_arrived(&vec![T + 3600], T + 3599));
    assert!(!has_start_arrived(&Vec::new(), T));
}

#[test]
fn active_game_is_neither_off_nor_future() {
    let live = cadence_game("TOR", "MTL", "LIVE", AT_T_PLUS_HOUR);
    let critical = cadence_game("TOR", "MTL", "CRIT", AT_T_PLUS_HOUR);
    let unknown = cadence_game("TOR", "MTL", "", AT_T_PLUS_HOUR);
    let future = cadence_game("TOR", "MTL", "FUT", AT_T_PLUS_HOUR);
    let off = cadence_game("TOR", "MTL", "OFF", AT_T_PLUS_HOUR);
    assert!(any_game_active(&[&live]));
    assert!(any_game_active(&[&critical]));
    assert!(any_game_active(&[&unknown]));
    assert!(!any_game_active(&[&future]));
    assert!(!any_game_active(&[&off]));
    assert!(!any_game_active(&[&future, &off]));
    assert!(any_game_active(&[&future, &off, &live]));
    assert!(!any_game_active(&[]));
}

#[test]
fn start_time_stays_pending_while_a_game_at_it_is_not_off() {
    let future = cadence_game("TOR", "MTL", "FUT", AT_T_PLUS_HOUR);
    let live = cadence_game("TOR", "MTL", "LIVE", AT_T_PLUS_HOUR);
    let off = cadence_game("TOR", "MTL", "OFF", AT_T_PLUS_HOUR);
    let other = cadence_game("TOR", "BOS", "LIVE", AT_T_PLUS_TWO_HOURS);
    let no_start = cadence_game("TOR", "BOS", "LIVE", "");
    let bad_start = cadence_game("TOR", "BOS", "LIVE", "eleven o'clock");
    assert!(is_still_pending(T + 3600, &[&future]));
    assert!(is_still_pending(T + 3600, &[&live]));
    assert!(!is_still_pending(T + 3600, &[&off]));
    assert!(!is_still_pending(T + 3600, &[&other]));
    assert!(!is_still_pending(T + 3600, &[&no_start, &bad_start]));
    assert!(!is_still_pending(T + 3600, &[]));
    // two games at the same start: one of them not over keeps it
    assert!(is_still_pending(T + 3600, &[&off, &live]));
    assert!(!is_still_pending(T + 3600, &[&off, &off]));
}

#[test]
fn surviving_start_times_keep_their_order() {
    let first = cadence_game("TOR", "MTL", "LIVE", AT_T_PLUS_HOUR);
    let second = cadence_game("TOR", "BOS", "OFF", AT_T_PLUS_TWO_HOURS);
    let pending = vec![T + 3600, T + 5000, T + 7200];
    assert_eq!(surviving_start_times(&pending, &[&first, &second]), vec![T + 3600]);
    let second_live = cadence_game("TOR", "BOS", "FUT", AT_T_PLUS_TWO_HOURS);
    assert_eq!(
        surviving_start_times(&pending, &[&second_live, &first]),
        vec![T + 3600, T + 7200]
    );
    assert_eq!(surviving_start_times(&pending, &[]), Vec::<u64>::new());
}

#[test]
fn poll_sets_mode_and_time_and_prunes() {
    let games = vec![
        cadence_game("TOR", "MTL", "LIVE", AT_T_PLUS_HOUR),
        cadence_game("BOS", "NYR", "LIVE", AT_T_PLUS_TWO_HOURS),
    ];
    let mut status = cadence_status(T, STATUS_NO_GAMES_LIVE, vec![T + 3600, T + 7200]);
    process_games(&["TOR"], &mut status, T + 3600, &games);
    assert_eq!(status, cadence_status(T + 3600, STATUS_WATCHING_LIVE, vec![T + 3600]));
}

#[test]
fn poll_ignores_games_of_other_teams_for_the_mode() {
    let games = vec![cadence_game("BOS", "NYR", "LIVE", AT_T_PLUS_HOUR)];
    let mut status = cadence_status(T, STATUS_WATCHING_LIVE, vec![T + 3600]);
    process_games(&["TOR"], &mut status, T + 3600, &games);
    assert_eq!(status, cadence_status(T + 3600, STATUS_NO_GAMES_LIVE, vec![]));
}

#[test]
fn poll_never_adds_a_start_time() {
    let games = vec![
        cadence_game("TOR", "MTL", "FUT", AT_T_PLUS_HOUR),
        cadence_game("TOR", "BOS", "FUT", AT_T_PLUS_TWO_HOURS),
    ];
    let mut status = cadence_status(T, STATUS_NO_GAMES_LIVE, vec![T + 7200]);
    process_games(&["TOR"], &mut status, T + 10, &games);
    assert_eq!(status.game_start_timestamps, vec![T + 7200]);
}

#[test]
fn refresh_replaces_the_pending_start_times() {
    let games = vec![
        cadence_game("TOR", "BOS", "FUT", AT_T_PLUS_TWO_HOURS),
        cadence_game("NYR", "BOS", "FUT", "2024-01-15T13:00:00Z"),
        cadence_game("MTL", "TOR", "FUT", AT_T_PLUS_HOUR),
        cadence_game("TOR", "OTT", "FUT", AT_T_PLUS_HOUR),
        cadence_game("TOR", "DET", "LIVE", "2024-01-15T09:00:00Z"),
        cadence_game("TOR", "FLA", "OFF", "2024-01-15T08:00:00Z"),
        cadence_game("TOR", "WPG", "FUT", ""),
        cadence_game("TOR", "VAN", "FUT", "soon"),
    ];
    let mut status = cadence_status(T - 86_400, STATUS_WATCHING_LIVE, vec![1, 2, 3]);
    refresh_game_start_timestamps(&["TOR"], &mut status, &games);
    assert_eq!(
        status,
        cadence_status(T - 86_400, STATUS_WATCHING_LIVE, vec![T + 3600, T + 7200])
    );
}

#[test]
fn first_run_schedules_then_polls() {
    let games = vec![cadence_game("TOR", "MTL", "FUT", AT_T_PLUS_HOUR)];
    let mut run = Run::start(cadence_status(0, STATUS_NO_GAMES_LIVE, vec![]), T);
    assert_eq!(run.phase, Phase::Scheduling);
    assert_eq!(run.action(), Action::Fetch);
    assert_eq!(run.status, cadence_status(0, STATUS_NO_GAMES_LIVE, vec![]));
    run.on_games(&["TOR"], &games);
    assert_eq!(run.phase, Phase::Polling);
    assert_eq!(run.action(), Action::Fetch);
    assert_eq!(run.status, cadence_status(0, STATUS_NO_GAMES_LIVE, vec![T + 3600]));
    run.on_games(&["TOR"], &games);
    assert_eq!(run.phase, Phase::Done);
    assert_eq!(run.action(), Action::Persist);
    assert_eq!(run.status, cadence_status(T, STATUS_NO_GAMES_LIVE, vec![T + 3600]));
    assert_eq!(run.now, T);
}

#[test]
fn first_run_drops_a_game_that_is_off_or_gone_at_the_poll() {
    let scheduled = vec![cadence_game("TOR", "MTL", "FUT", AT_T_PLUS_HOUR)];
    let off = vec![cadence_game("TOR", "MTL", "OFF", AT_T_PLUS_HOUR)];
    let mut run = Run::start(TrackerStatus::default_status(), T);
    run.on_games(&["TOR"], &scheduled);
    run.on_games(&["TOR"], &off);
    assert_eq!(run.status, cadence_status(T, STATUS_NO_GAMES_LIVE, vec![]));

    let mut run = Run::start(TrackerStatus::default_status(), T);
    run.on_games(&["TOR"], &scheduled);
    run.on_games(&["TOR"], &[]);
    assert_eq!(run.status, cadence_status(T, STATUS_NO_GAMES_LIVE, vec![]));
}

#[test]
fn first_run_of_a_day_polls_even_where_a_start_is_pending() {
    let games = vec![cadence_game("TOR", "MTL", "LIVE", AT_T_PLUS_HOUR)];
    let yesterday = T - 86_400;
    let mut run = Run::start(cadence_status(yesterday, STATUS_NO_GAMES_LIVE, vec![T + 7200]), T);
    assert_eq!(run.phase, Phase::Scheduling);
    // nothing is pruned before the games are known
    assert_eq!(run.status.game_start_timestamps, vec![T + 7200]);
    run.on_games(&["TOR"], &games);
    assert_eq!(run.status.game_start_timestamps, Vec::<u64>::new());
    run.on_games(&["TOR"], &games);
    assert_eq!(run.status, cadence_status(T, STATUS_WATCHING_LIVE, vec![]));
}

#[test]
fn idle_run_fetches_nothing() {
    let run = Run::start(cadence_status(T, STATUS_NO_GAMES_LIVE, vec![T + 3600]), T + 10);
    assert_eq!(run.phase, Phase::Done);
    assert_eq!(run.action(), Action::Persist);
    assert_eq!(run.status, cadence_status(T + 10, STATUS_NO_GAMES_LIVE, vec![T + 3600]));
}

#[test]
fn idle_run_keeps_the_mode_it_found() {
    let run = Run::start(cadence_status(T, STATUS_WATCHING_LIVE, vec![T + 3600]), T + 10);
    assert_eq!(run.status, cadence_status(T + 10, STATUS_WATCHING_LIVE, vec![T + 3600]));
    let run = Run::start(cadence_status(T, "SOMETHING_ELSE", vec![T + 3600]), T + 10);
    assert_eq!(run.status, cadence_status(T + 10, "SOMETHING_ELSE", vec![T + 3600]));
}

#[test]
fn idle_run_drops_what_has_passed() {
    let run = Run::start(cadence_status(T, STATUS_NO_GAMES_LIVE, vec![T + 5, T + 3600]), T + 10);
    assert_eq!(run.phase, Phase::Done);
    assert_eq!(run.status, cadence_status(T + 10, STATUS_NO_GAMES_LIVE, vec![T + 3600]));
}

#[test]
fn idle_run_repeated_changes_nothing() {
    let first = Run::start(cadence_status(T, STATUS_NO_GAMES_LIVE, vec![T + 5, T + 3600]), T + 10);
    let again = Run::start(first.status.clone(), T + 10);
    assert_eq!(again, first);
}

#[test]
fn run_with_nothing_pending_polls() {
    let mut run = Run::start(cadence_status(T, STATUS_NO_GAMES_LIVE, vec![]), T + 10);
    assert_eq!(run.phase, Phase::Polling);
    assert_eq!(run.action(), Action::Fetch);
    // the time of the run is recorded with the poll only
    assert_eq!(run.status, cadence_status(T, STATUS_NO_GAMES_LIVE, vec![]));
    run.on_games(&["TOR"], &[cadence_game("MTL", "TOR", "LIVE", "2024-01-15T09:00:00Z")]);
    assert_eq!(run.status, cadence_status(T + 10, STATUS_WATCHING_LIVE, vec![]));
}

#[test]
fn run_polls_once_all_that_was_pending_has_passed() {
    let run = Run::start(cadence_status(T, STATUS_NO_GAMES_LIVE, vec![T + 3600]), T + 3601);
    assert_eq!(run.phase, Phase::Polling);
    assert_eq!(run.status.game_start_timestamps, Vec::<u64>::new());
}

#[test]
fn arrived_start_polls_and_watches() {
    let games = vec![cadence_game("TOR", "MTL", "LIVE", AT_T_PLUS_HOUR)];
    let mut run = Run::start(cadence_status(T, STATUS_NO_GAMES_LIVE, vec![T + 3600]), T + 3600);
    assert_eq!(run.phase, Phase::Polling);
    assert_eq!(run.action(), Action::Fetch);
    run.on_games(&["TOR"], &games);
    assert_eq!(run.action(), Action::Persist);
    assert_eq!(run.status, cadence_status(T + 3600, STATUS_WATCHING_LIVE, vec![T + 3600]));
}

#[test]
fn game_that_is_off_is_dropped() {
    let games = vec![cadence_game("TOR", "MTL", "OFF", AT_T_PLUS_HOUR)];
    let mut run =
        Run::start(cadence_status(T, STATUS_WATCHING_LIVE, vec![T + 3600]), T + 3600);
    run.on_games(&["TOR"], &games);
    assert_eq!(run.status, cadence_status(T + 3600, STATUS_NO_GAMES_LIVE, vec![]));
}

#[test]
fn game_that_is_off_beside_an_active_game_keeps_watching() {
    let games = vec![
        cadence_game("TOR", "MTL", "OFF", AT_T_PLUS_HOUR),
        cadence_game("BOS", "TOR", "LIVE", AT_T_PLUS_TWO_HOURS),
    ];
    let mut status = cadence_status(T, STATUS_WATCHING_LIVE, vec![T + 3600, T + 7200]);
    process_games(&["TOR"], &mut status, T + 7200, &games);
    assert_eq!(status, cadence_status(T + 7200, STATUS_WATCHING_LIVE, vec![T + 7200]));
}

fn drive_with_failing_fetch(stored: &mut TrackerStatus, now: u64) -> Result<(), TrackerError> {
    let run = Run::start(stored.clone(), now);
    match run.action() {
        Action::Fetch => Err(TrackerError::NetworkError),
        Action::Persist => {
            *stored = run.status;
            Ok(())
        }
    }
}

#[test]
fn failed_fetch_leaves_the_stored_status() {
    let before = cadence_status(T, STATUS_NO_GAMES_LIVE, vec![T + 3600]);
    let mut stored = before.clone();
    let outcome = drive_with_failing_fetch(&mut stored, T + 3600);
    assert_eq!(outcome, Err(TrackerError::NetworkError));
    assert_eq!(stored, before);

    let mut stored = TrackerStatus::default_status();
    let outcome = drive_with_failing_fetch(&mut stored, T);
    assert_eq!(outcome, Err(TrackerError::NetworkError));
    assert_eq!(stored, TrackerStatus::default_status());
}

#[test]
fn run_that_is_done_ignores_games() {
    let mut run = Run::start(cadence_status(T, STATUS_NO_GAMES_LIVE, vec![T + 3600]), T + 10);
    let before = run.clone();
    run.on_games(&["TOR"], &[cadence_game("TOR", "MTL", "LIVE", AT_T_PLUS_HOUR)]);
    assert_eq!(run, before);
}

#[test]
fn well_formed_status_stays_well_formed_through_a_run() {
    let games = vec![
        cadence_game("TOR", "MTL", "LIVE", AT_T_PLUS_HOUR),
        cadence_game("TOR", "BOS", "FUT", AT_T_PLUS_TWO_HOURS),
    ];
    let status = cadence_status(T, STATUS_NO_GAMES_LIVE, vec![T + 3600, T + 5000, T + 7200]);
    assert!(status.is_well_formed());
    let mut run = Run::start(status, T + 3600);
    assert!(run.status.is_well_formed());
    run.on_games(&["TOR"], &games);
    assert!(run.status.is_well_formed());
    assert_eq!(run.status.game_start_timestamps, vec![T + 3600, T + 7200]);
}

#[test]
fn schedule_polled_against_its_own_games_stays_whole() {
    let games = vec![
        cadence_game("TOR", "BOS", "FUT", AT_T_PLUS_TWO_HOURS),
        cadence_game("MTL", "TOR", "FUT", AT_T_PLUS_HOUR),
        cadence_game("TOR", "OTT", "OFF", AT_T_PLUS_HOUR),
        cadence_game("TOR", "DET", "OFF", "2024-01-15T09:00:00Z"),
    ];
    let mut status = cadence_status(0, STATUS_WATCHING_LIVE, vec![]);
    refresh_game_start_timestamps(&["TOR"], &mut status, &games);
    assert_eq!(status.game_start_timestamps, vec![T + 3600, T + 7200]);
    process_games(&["TOR"], &mut status, T, &games);
    assert_eq!(status, cadence_status(T, STATUS_NO_GAMES_LIVE, vec![T + 3600, T + 7200]));
}
