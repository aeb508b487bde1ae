use pgn_glicko::{
    collect_record, parse_date, rate_games, sort_by_date, total_order_key, CalendarDate, ErrorKind,
    GameResult, Outcome, OutcomeError, OutcomeResult, RatingEngine, RatingHistory,
};
use skillratings::glicko2::{glicko2, Glicko2Config, Glicko2Rating};
use skillratings::Outcomes;

fn day(year: i32, month: u32, day: u32) -> CalendarDate {
    CalendarDate { year, month, day }
}

fn game(white: &str, black: &str, date: CalendarDate, outcome: GameResult) -> OutcomeResult {
    OutcomeResult { white: white.to_string(), black: black.to_string(), date, outcome }
}

fn record(headers: &[(&[u8], &[u8])], result: Option<GameResult>) -> Result<OutcomeResult, OutcomeError> {
    let mut visitor = Outcome::new();
    for (key, value) in headers {
        visitor.header(key, value);
    }
    visitor.outcome(result);
    visitor.end_game()
}

#[test]
fn record_with_all_fields_gives_game() {
    let r = record(
        &[(b"Event", b"Club"), (b"White", b"Alice"), (b"Black", b"Bob"), (b"Date", b"2024.03.05")],
        Some(GameResult::WhiteWin),
    );
    let g = r.unwrap();
    assert_eq!(g.white, "Alice");
    assert_eq!(g.black, "Bob");
    assert_eq!(g.date, day(2024, 3, 5));
    assert_eq!(g.outcome, GameResult::WhiteWin);
}

#[test]
fn escaped_header_is_decoded() {
    let r = record(
        &[(b"White", br#"Bob \"The Rook\""#), (b"Black", b"Eve"), (b"Date", b"2023.12.31")],
        Some(GameResult::Draw),
    );
    assert_eq!(r.unwrap().white, "Bob \"The Rook\"");
}

#[test]
fn unknown_result_gives_no_outcome() {
    let r = record(&[(b"White", b"A"), (b"Black", b"B"), (b"Date", b"2024.01.01")], None);
    let e = r.unwrap_err();
    assert_eq!(e.kind(), ErrorKind::NoOutcome);
    assert!(!e.is_fatal());
}

#[test]
fn missing_date_gives_no_outcome() {
    let r = record(&[(b"White", b"A"), (b"Black", b"B")], Some(GameResult::BlackWin));
    assert_eq!(r.unwrap_err().kind(), ErrorKind::NoOutcome);
}

#[test]
fn bad_date_is_fatal() {
    let r = record(&[(b"White", b"A"), (b"Black", b"B"), (b"Date", b"2024.??.??")], Some(GameResult::Draw));
    let e = r.unwrap_err();
    assert_eq!(e.kind(), ErrorKind::DateFormatting);
    assert!(e.is_fatal());
    let r = record(&[(b"White", b"A"), (b"Black", b"B"), (b"Date", b"2023.02.29")], Some(GameResult::Draw));
    assert_eq!(r.unwrap_err().kind(), ErrorKind::DateFormatting);
}

#[test]
fn invalid_utf8_is_fatal() {
    let r = record(&[(b"White", &[0xff, 0xfe]), (b"Black", b"B"), (b"Date", b"2024.01.01")], Some(GameResult::Draw));
    let e = r.unwrap_err();
    assert_eq!(e.kind(), ErrorKind::HeaderUtf8);
    assert!(e.is_fatal());
}

#[test]
fn fatal_header_error_survives_unknown_result() {
    let r = record(&[(b"White", &[0xff]), (b"Black", b"B"), (b"Date", b"2024.01.01")], None);
    let e = r.unwrap_err();
    assert_eq!(e.kind(), ErrorKind::HeaderUtf8);
    assert!(e.is_fatal());
    let r = record(&[(b"White", b"A"), (b"Black", b"B"), (b"Date", b"2024.13.01")], None);
    assert_eq!(r.unwrap_err().kind(), ErrorKind::DateFormatting);
}

#[test]
fn missing_name_gives_no_outcome() {
    let r = record(&[(b"Black", b"B"), (b"Date", b"2024.01.01")], Some(GameResult::WhiteWin));
    assert_eq!(r.unwrap_err().kind(), ErrorKind::NoOutcome);
    let r = record(&[(b"White", b"A"), (b"Black", b""), (b"Date", b"2024.01.01")], Some(GameResult::Draw));
    assert_eq!(r.unwrap_err().kind(), ErrorKind::NoOutcome);
}

#[test]
fn parse_date_reads_fields() {
    assert_eq!(parse_date("1999.12.07").unwrap(), day(1999, 12, 7));
    assert_eq!(parse_date("2000.02.29").unwrap(), day(2000, 2, 29));
    assert!(parse_date("1999-12-07").is_err());
}

#[test]
fn collector_keeps_games_and_skips_unknown_results() {
    let mut games = Vec::new();
    let g = game("A", "B", day(2024, 1, 1), GameResult::Draw);
    assert!(collect_record(&mut games, Ok(g)).is_ok());
    assert!(collect_record(&mut games, Err(OutcomeError::NoOutcome)).is_ok());
    assert_eq!(games.len(), 1);
    let fatal = parse_date("bad").unwrap_err();
    let r = collect_record(&mut games, Err(OutcomeError::DateFormatting(fatal)));
    assert_eq!(r.unwrap_err().kind(), ErrorKind::DateFormatting);
    assert_eq!(games.len(), 1);
}

#[test]
fn sort_is_stable_within_a_day() {
    let mut games = vec![
        game("C", "D", day(2024, 2, 1), GameResult::Draw),
        game("A", "B", day(2024, 1, 1), GameResult::WhiteWin),
        game("E", "F", day(2023, 12, 31), GameResult::Draw),
        game("B", "A", day(2024, 1, 1), GameResult::BlackWin),
        game("G", "H", day(2024, 1, 1), GameResult::Draw),
    ];
    sort_by_date(&mut games);
    let order: Vec<&str> = games.iter().map(|g| g.white.as_str()).collect();
    assert_eq!(order, vec!["E", "A", "B", "G", "C"]);
}

#[test]
fn unseen_competitor_reads_as_baseline() {
    let mut engine = RatingEngine::new();
    engine.rate(&game("A", "B", day(2024, 1, 1), GameResult::Draw));
    let s = engine.rating_of(&"Nobody".to_string());
    assert_eq!(s.rating, 1500.0);
    assert_eq!(s.deviation, 350.0);
    assert_eq!(s.volatility, 0.06);
}

#[test]
fn two_games_match_direct_updates() {
    let mut games = vec![
        game("A", "B", day(2024, 1, 1), GameResult::WhiteWin),
        game("B", "A", day(2024, 1, 1), GameResult::WhiteWin),
    ];
    let mut first = vec![games[0].clone()];
    let (engine1, _) = rate_games(&mut first);
    let a1 = engine1.rating_of(&"A".to_string());
    let b1 = engine1.rating_of(&"B".to_string());
    assert!(a1.rating > 1500.0);
    assert!(b1.rating < 1500.0);
    assert!(a1.deviation < 350.0);
    assert!(b1.deviation < 350.0);

    let (engine, history) = rate_games(&mut games);
    let config = Glicko2Config::new();
    let (a, b) = glicko2(&Glicko2Rating::new(), &Glicko2Rating::new(), &Outcomes::WIN, &config);
    let (b2, a2) = glicko2(&b, &a, &Outcomes::WIN, &config);
    assert_eq!(engine.rating_of(&"A".to_string()), a2);
    assert_eq!(engine.rating_of(&"B".to_string()), b2);
    assert_eq!(a1, a);
    assert_eq!(b1, b);
    let series = history.series(&"A".to_string());
    assert_eq!(series.len(), 1);
    assert_eq!(series[0], (day(2024, 1, 1), a2));
}

#[test]
fn first_game_of_newcomers() {
    let mut engine = RatingEngine::new();
    let (a, b) = engine.rate(&game("A", "B", day(2024, 1, 1), GameResult::WhiteWin));
    assert_eq!(a.rating.round(), 1662.0);
    assert_eq!(b.rating.round(), 1338.0);
    assert_eq!(a.deviation.round(), 290.0);
    assert_eq!(b.deviation.round(), 290.0);
    assert_eq!(engine.rating_of(&"A".to_string()), a);
    assert_eq!(engine.rating_of(&"B".to_string()), b);
}

#[test]
fn apply_writes_given_states() {
    let mut engine = RatingEngine::new();
    let w = Glicko2Rating { rating: 1700.0, deviation: 200.0, volatility: 0.06 };
    let k = Glicko2Rating { rating: 1400.0, deviation: 210.0, volatility: 0.06 };
    engine.apply(&game("A", "B", day(2024, 1, 1), GameResult::Draw), w, k);
    assert_eq!(engine.rating_of(&"A".to_string()), w);
    assert_eq!(engine.rating_of(&"B".to_string()), k);
    let board = engine.leaderboard(205.0f64.to_bits());
    assert_eq!(board.len(), 1);
    assert_eq!(board[0].competitor, "A");
}

#[test]
fn disjoint_games_commute() {
    let g1 = game("A", "B", day(2024, 1, 1), GameResult::WhiteWin);
    let g2 = game("C", "D", day(2024, 1, 1), GameResult::Draw);
    let mut e1 = RatingEngine::new();
    e1.rate(&g1);
    e1.rate(&g2);
    let mut e2 = RatingEngine::new();
    e2.rate(&g2);
    e2.rate(&g1);
    for name in ["A", "B", "C", "D"] {
        let n = name.to_string();
        assert_eq!(e1.rating_of(&n), e2.rating_of(&n));
    }
}

#[test]
fn shared_competitor_order_matters() {
    let g1 = game("A", "B", day(2024, 1, 1), GameResult::WhiteWin);
    let g2 = game("A", "C", day(2024, 1, 1), GameResult::BlackWin);
    let mut e1 = RatingEngine::new();
    e1.rate(&g1);
    e1.rate(&g2);
    let mut e2 = RatingEngine::new();
    e2.rate(&g2);
    e2.rate(&g1);
    let a = "A".to_string();
    assert_ne!(e1.rating_of(&a).rating, e2.rating_of(&a).rating);
}

#[test]
fn run_is_reproducible() {
    let make = || {
        vec![
            game("A", "B", day(2024, 1, 2), GameResult::WhiteWin),
            game("B", "C", day(2024, 1, 1), GameResult::Draw),
            game("C", "A", day(2024, 1, 3), GameResult::BlackWin),
        ]
    };
    let (e1, _) = rate_games(&mut make());
    let (e2, _) = rate_games(&mut make());
    for name in ["A", "B", "C"] {
        let n = name.to_string();
        let (x, y) = (e1.rating_of(&n), e2.rating_of(&n));
        assert_eq!(x.rating.to_bits(), y.rating.to_bits());
        assert_eq!(x.deviation.to_bits(), y.deviation.to_bits());
        assert_eq!(x.volatility.to_bits(), y.volatility.to_bits());
    }
}

#[test]
fn leaderboard_filters_and_sorts() {
    let mut games = Vec::new();
    for i in 0..12u32 {
        games.push(game("Strong", "Weak", day(2024, 1, 1 + i), GameResult::WhiteWin));
        games.push(game("Mid", "Weak", day(2024, 1, 1 + i), GameResult::Draw));
    }
    games.push(game("Rookie", "Weak", day(2024, 2, 1), GameResult::WhiteWin));
    let (engine, _) = rate_games(&mut games);
    let all = engine.leaderboard(1000.0f64.to_bits());
    assert_eq!(all.len(), 4);
    for w in all.windows(2) {
        assert!(w[0].state.rating >= w[1].state.rating);
    }
    assert_eq!(all[0].competitor, "Strong");
    let threshold = 180.0f64;
    let board = engine.leaderboard(threshold.to_bits());
    assert!(board.iter().all(|e| e.state.deviation < threshold));
    assert!(!board.iter().any(|e| e.competitor == "Rookie"));
    assert!(board.iter().any(|e| e.competitor == "Strong"));
    let none = engine.leaderboard(0.0f64.to_bits());
    assert!(none.is_empty());
}

#[test]
fn history_keeps_last_state_of_each_day() {
    let mut history = RatingHistory::new();
    let a = "A".to_string();
    let s1 = Glicko2Rating { rating: 1600.0, deviation: 300.0, volatility: 0.06 };
    let s2 = Glicko2Rating { rating: 1650.0, deviation: 290.0, volatility: 0.06 };
    let s3 = Glicko2Rating { rating: 1700.0, deviation: 280.0, volatility: 0.06 };
    history.record(&a, day(2024, 3, 2), s3);
    history.record(&a, day(2024, 3, 1), s1);
    history.record(&a, day(2024, 3, 1), s2);
    history.record(&"B".to_string(), day(2024, 3, 1), s1);
    let series = history.series(&a);
    assert_eq!(series, vec![(day(2024, 3, 1), s2), (day(2024, 3, 2), s3)]);
}

#[test]
fn total_order_key_values() {
    assert_eq!(total_order_key(0), 0);
    assert_eq!(total_order_key(1.0f64.to_bits()), 0x3ff0000000000000);
    assert_eq!(total_order_key((-0.0f64).to_bits()), -1);
    assert!(total_order_key((-2.0f64).to_bits()) < total_order_key((-1.0f64).to_bits()));
    assert!(total_order_key(180.0f64.to_bits()) < total_order_key(200.0f64.to_bits()));
}
