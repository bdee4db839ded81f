use game_tracker::error::StartTimeError;
use game_tracker::game_processing::{
    borrow_games, classify_state, extract_future_game_start_timestamps,
    filter_favourite_teams_details, future_start_timestamps, insert_ascending, is_favourite_team,
    FullGameDetails, GameState, STATE_FUTURE, STATE_OFF,
};
use game_tracker::start_time::{parse_start_time_to_timestamp, seconds_to_unsigned};

fn listed_game(home: &str, away: &str, state: &str, start: &str) -> FullGameDetails {
    FullGameDetails {
        home_team_abbrev: home.to_string(),
        home_team_score: 1,
        away_team_abbrev: away.to_string(),
        away_team_score: 2,
        game_state: state.to_string(),
        start_time_utc: start.to_string(),
        readable_start_time: "7:00 PM".to_string(),
    }
}

#[test]
fn state_texts() {
    assert_eq!(STATE_FUTURE, "FUT");
    assert_eq!(STATE_OFF, "OFF");
}

#[test]
fn known_states_are_classified() {
    assert_eq!(classify_state("FUT"), GameState::Future);
    assert_eq!(classify_state("OFF"), GameState::Off);
    assert_eq!(classify_state("LIVE"), GameState::Live);
}

#[test]
fn unknown_states_count_as_live() {
    assert_eq!(classify_state(""), GameState::Live);
    assert_eq!(classify_state("CRIT"), GameState::Live);
    assert_eq!(classify_state("FINAL"), GameState::Live);
    assert_eq!(classify_state("PRE"), GameState::Live);
    assert_eq!(classify_state("fut"), GameState::Live);
    assert_eq!(classify_state("OFF "), GameState::Live);
}

#[test]
fn favourite_team_is_found_by_its_exact_name() {
    assert!(is_favourite_team("TOR", &["MTL", "TOR"]));
    assert!(!is_favourite_team("TOR", &["MTL", "BOS"]));
    assert!(!is_favourite_team("tor", &["TOR"]));
    assert!(!is_favourite_team("TOR", &[]));
    assert!(!is_favourite_team("", &["TOR"]));
    assert!(is_favourite_team("", &[""]));
}

#[test]
fn filter_keeps_home_and_away_games_in_order() {
    let games = vec![
        listed_game("TOR", "MTL", "LIVE", ""),
        listed_game("BOS", "NYR", "LIVE", ""),
        listed_game("OTT", "TOR", "FUT", ""),
        listed_game("MTL", "BOS", "OFF", ""),
    ];
    let kept = filter_favourite_teams_details(&games, &["TOR"]);
    assert_eq!(kept, vec![&games[0], &games[2]]);
    let kept = filter_favourite_teams_details(&games, &["BOS", "TOR"]);
    assert_eq!(kept, vec![&games[0], &games[1], &games[2], &games[3]]);
    let kept = filter_favourite_teams_details(&games, &["NYR", "MTL"]);
    assert_eq!(kept, vec![&games[0], &games[1], &games[3]]);
}

#[test]
fn filter_keeps_equal_games_as_often_as_they_occur() {
    let games = vec![
        listed_game("TOR", "MTL", "LIVE", ""),
        listed_game("TOR", "MTL", "LIVE", ""),
        listed_game("BOS", "NYR", "LIVE", ""),
    ];
    let kept = filter_favourite_teams_details(&games, &["TOR", "TOR"]);
    assert_eq!(kept.len(), 2);
    assert!(std::ptr::eq(kept[0], &games[0]));
    assert!(std::ptr::eq(kept[1], &games[1]));
}

#[test]
fn filter_with_no_favourites_or_no_games_keeps_nothing() {
    let games = vec![listed_game("TOR", "MTL", "LIVE", "")];
    assert!(filter_favourite_teams_details(&games, &[]).is_empty());
    assert!(filter_favourite_teams_details(&[], &["TOR"]).is_empty());
    assert!(filter_favourite_teams_details(&games, &["SEA"]).is_empty());
}

#[test]
fn start_time_is_read_as_seconds_since_the_epoch() {
    assert_eq!(parse_start_time_to_timestamp("2024-01-15T00:00:00Z"), Ok(1_705_276_800));
    assert_eq!(parse_start_time_to_timestamp("1970-01-01T00:00:00Z"), Ok(0));
    assert_eq!(parse_start_time_to_timestamp("1970-01-01T00:00:01+00:00"), Ok(1));
    assert_eq!(parse_start_time_to_timestamp("2024-01-15T00:00:00.750Z"), Ok(1_705_276_800));
}

#[test]
fn start_time_with_an_offset_is_brought_to_utc() {
    assert_eq!(parse_start_time_to_timestamp("2024-01-14T19:00:00-05:00"), Ok(1_705_276_800));
    assert_eq!(parse_start_time_to_timestamp("2024-01-15T01:00:00+01:00"), Ok(1_705_276_800));
}

#[test]
fn empty_start_time_is_an_error() {
    assert_eq!(parse_start_time_to_timestamp(""), Err(StartTimeError::Empty));
}

#[test]
fn unreadable_start_time_is_an_error() {
    assert_eq!(parse_start_time_to_timestamp("tomorrow"), Err(StartTimeError::Unparsable));
    assert_eq!(parse_start_time_to_timestamp("2024-01-15"), Err(StartTimeError::Unparsable));
    assert_eq!(
        parse_start_time_to_timestamp("2024-01-15T00:00:00"),
        Err(StartTimeError::Unparsable)
    );
    assert_eq!(
        parse_start_time_to_timestamp("2024-13-15T00:00:00Z"),
        Err(StartTimeError::Unparsable)
    );
    assert_eq!(parse_start_time_to_timestamp(" "), Err(StartTimeError::Unparsable));
}

#[test]
fn start_time_before_the_epoch_wraps_around() {
    assert_eq!(parse_start_time_to_timestamp("1969-12-31T23:59:59Z"), Ok(u64::MAX));
    assert_eq!(
        parse_start_time_to_timestamp("1969-12-31T00:00:00Z"),
        Ok(u64::MAX - 86_399)
    );
}

#[test]
fn signed_seconds_become_unsigned() {
    assert_eq!(seconds_to_unsigned(0), 0);
    assert_eq!(seconds_to_unsigned(1_705_276_800), 1_705_276_800);
    assert_eq!(seconds_to_unsigned(i64::MAX), 9_223_372_036_854_775_807);
    assert_eq!(seconds_to_unsigned(-1), u64::MAX);
    assert_eq!(seconds_to_unsigned(i64::MIN), 9_223_372_036_854_775_808);
}

#[test]
fn insert_keeps_a_list_ascending_and_without_repeats() {
    let mut list: Vec<u64> = Vec::new();
    insert_ascending(&mut list, 30);
    assert_eq!(list, vec![30]);
    insert_ascending(&mut list, 10);
    assert_eq!(list, vec![10, 30]);
    insert_ascending(&mut list, 20);
    assert_eq!(list, vec![10, 20, 30]);
    insert_ascending(&mut list, 40);
    assert_eq!(list, vec![10, 20, 30, 40]);
    insert_ascending(&mut list, 20);
    insert_ascending(&mut list, 10);
    insert_ascending(&mut list, 40);
    assert_eq!(list, vec![10, 20, 30, 40]);
    insert_ascending(&mut list, 0);
    insert_ascending(&mut list, u64::MAX);
    assert_eq!(list, vec![0, 10, 20, 30, 40, u64::MAX]);
}

#[test]
fn insert_into_a_list_that_does_not_ascend_adds_the_value_at_most_once() {
    let mut list: Vec<u64> = vec![30, 10, 20];
    insert_ascending(&mut list, 25);
    assert_eq!(list, vec![25, 30, 10, 20]);
    insert_ascending(&mut list, 25);
    assert_eq!(list, vec![25, 30, 10, 20]);
}

#[test]
fn future_start_times_are_sorted_and_unique() {
    let games = vec![
        listed_game("TOR", "MTL", "FUT", "2024-01-15T12:00:00Z"),
        listed_game("BOS", "NYR", "FUT", "2024-01-15T11:00:00Z"),
        listed_game("OTT", "DET", "FUT", "2024-01-15T12:00:00Z"),
        listed_game("FLA", "TBL", "FUT", "2024-01-15T07:00:00-05:00"),
    ];
    assert_eq!(
        extract_future_game_start_timestamps(&games),
        Ok(vec![1_705_316_400, 1_705_320_000])
    );
}

#[test]
fn only_future_games_with_a_readable_start_are_extracted() {
    let games = vec![
        listed_game("TOR", "MTL", "LIVE", "2024-01-15T10:00:00Z"),
        listed_game("BOS", "NYR", "OFF", "2024-01-15T09:00:00Z"),
        listed_game("OTT", "DET", "FUT", ""),
        listed_game("FLA", "TBL", "FUT", "not a time"),
        listed_game("SEA", "VAN", "", "2024-01-15T08:00:00Z"),
        listed_game("WPG", "CGY", "FUT", "2024-01-15T11:00:00Z"),
    ];
    assert_eq!(extract_future_game_start_timestamps(&games), Ok(vec![1_705_316_400]));
}

#[test]
fn no_games_give_no_start_times() {
    assert_eq!(extract_future_game_start_timestamps(&[]), Ok(vec![]));
    assert_eq!(future_start_timestamps(&[]), Vec::<u64>::new());
}

#[test]
fn borrowed_games_are_the_games() {
    let games = vec![
        listed_game("TOR", "MTL", "FUT", "2024-01-15T12:00:00Z"),
        listed_game("BOS", "NYR", "FUT", "2024-01-15T11:00:00Z"),
    ];
    let borrowed = borrow_games(&games);
    assert_eq!(borrowed.len(), 2);
    assert!(std::ptr::eq(borrowed[0], &games[0]));
    assert!(std::ptr::eq(borrowed[1], &games[1]));
    assert_eq!(future_start_timestamps(&borrowed), vec![1_705_316_400, 1_705_320_000]);
}
