//! What is shown of a followed game, one line each.

use vstd::prelude::*;
use vstd::string::StringExecFns;
use crate::game_processing::{games_of, FullGameDetails};
use crate::text::{decimal, decimal_text};

verus! {

/// The line with the score of a game: both teams with their scores, and the
/// state text.
pub open spec fn score_line_of(game: FullGameDetails) -> Seq<char> {
    game.home_team_abbrev@ + ": "@ + decimal(game.home_team_score as nat) + " - "@
        + game.away_team_abbrev@ + ": "@ + decimal(game.away_team_score as nat) + " (State: "@
        + game.game_state@ + ")"@
}

/// The line that announces a game: both teams, and the start as a clock time.
pub open spec fn fixture_line_of(game: FullGameDetails) -> Seq<char> {
    game.home_team_abbrev@ + " vs "@ + game.away_team_abbrev@ + " - "@
        + game.readable_start_time@
}

/// Writes the line with the score of a game.
pub fn score_line(game: &FullGameDetails) -> (line: String)
    ensures
        line@ == score_line_of(*game),
{
    let mut line = String::new();
    line.append(game.home_team_abbrev.as_str());
    line.append(": ");
    let home = decimal_text(game.home_team_score);
    line.append(home.as_str());
    line.append(" - ");
    line.append(game.away_team_abbrev.as_str());
    line.append(": ");
    let away = decimal_text(game.away_team_score);
    line.append(away.as_str());
    line.append(" (State: ");
    line.append(game.game_state.as_str());
    line.append(")");
    assert(line@ =~= score_line_of(*game));
    line
}

/// Writes the line that announces a game.
pub fn fixture_line(game: &FullGameDetails) -> (line: String)
    ensures
        line@ == fixture_line_of(*game),
{
    let mut line = String::new();
    line.append(game.home_team_abbrev.as_str());
    line.append(" vs ");
    line.append(game.away_team_abbrev.as_str());
    line.append(" - ");
    line.append(game.readable_start_time.as_str());
    assert(line@ =~= fixture_line_of(*game));
    line
}

/// The lines with the scores of the games, one for each game, in their order.
pub fn game_score_lines(games: &[&FullGameDetails]) -> (lines: Vec<String>)
    ensures
        lines@.len() == games@.len(),
        forall|k: int|
            0 <= k < lines@.len() ==> (#[trigger] lines@[k])@ == score_line_of(
                games_of(games@)[k],
            ),
{
    let mut lines: Vec<String> = Vec::new();
    let mut i: usize = 0;
    while i < games.len()
        invariant
            i <= games.len(),
            lines@.len() == i,
            forall|k: int|
                0 <= k < i ==> (#[trigger] lines@[k])@ == score_line_of(games_of(games@)[k]),
        decreases games.len() - i,
    {
        let line = score_line(games[i]);
        lines.push(line);
        i += 1;
    }
    lines
}

} // verus!
