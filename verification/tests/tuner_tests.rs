use pea::tuner::{parse_wdl, MatchResult};

#[test]
fn match_report_counts() {
    let report = "Results of a vs b (4+0.075, 1t, 16MB):\n\
                  Elo: 12.3 +/- 4.5, nElo: 20.1 +/- 7.3\n\
                  Games: 100, Wins: 40, Losses: 30, Draws: 30, Points: 55.0 (55.00 %)\n";
    assert_eq!(parse_wdl(report), MatchResult { wins: 40, losses: 30, draws: 30 });
}

#[test]
fn later_games_line_overrides() {
    let report = "Games: 10, Wins: 1, Losses: 2, Draws: 7\nGames: 20, Wins: 5, Losses: 5, Draws: 10\n";
    assert_eq!(parse_wdl(report), MatchResult { wins: 5, losses: 5, draws: 10 });
}

#[test]
fn malformed_counts_read_as_zero() {
    let report = "Games: 10, Wins: many, Losses: 2\r\n";
    assert_eq!(parse_wdl(report), MatchResult { wins: 0, losses: 2, draws: 0 });
    assert_eq!(parse_wdl("no report"), MatchResult { wins: 0, losses: 0, draws: 0 });
}
