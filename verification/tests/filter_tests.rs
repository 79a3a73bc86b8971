use pea::chess::Color;
use pea::datagen::{GameResult, RawPosition as Record};
use pea::filter::{
    apply_filters, collect_and_filter, is_balanced, is_imbalanced, shuffle, BalanceStats, FilterConfig, FilterResult,
    RawPosition,
};

fn rec(fen: &str, score: i32, net_id: u8, pawn_hash: u64) -> RawPosition {
    RawPosition {
        fen: fen.to_string(),
        score,
        wdl: "0.5".to_string(),
        stm: Color::White,
        net_id,
        ply: 8,
        nodes: 1000,
        pawn_hash,
    }
}

#[test]
fn reads_a_generated_line_back() {
    let written = Record {
        fen: "rnbqkbnr/pppppppp/8/8/4P3/8/PPPP1PPP/RNBQKBNR b KQkq -".to_string(),
        score: -27,
        wdl: GameResult::WhiteWin,
        stm: Color::Black,
        net_id: 1,
        ply: 11,
        nodes: 20000,
        pawn_hash: 0x0123_4567_89ab_cdef,
    };
    let line = written.to_line();
    let read = RawPosition::from_line(&line).expect("record reads back");
    assert_eq!(read.fen, written.fen);
    assert_eq!(read.score, -27);
    assert_eq!(read.wdl, "1");
    assert_eq!(read.stm, Color::Black);
    assert_eq!(read.net_id, 1);
    assert_eq!(read.ply, 11);
    assert_eq!(read.nodes, 20000);
    assert_eq!(read.pawn_hash, 0x0123_4567_89ab_cdef);
}

#[test]
fn malformed_lines_are_rejected() {
    assert!(RawPosition::from_line("fen|1|0.5|w|0|10|3").is_none());
    assert!(RawPosition::from_line("fen|x|0.5|w|0|10|3|ff").is_none());
    assert!(RawPosition::from_line("fen|1|0.5|x|0|10|3|ff").is_none());
    assert!(RawPosition::from_line("fen|1|0.5|w|256|10|3|ff").is_none());
    assert!(RawPosition::from_line("fen|1|0.5|w|0|10|3|zz").is_none());
    assert!(RawPosition::from_line("fen|1|draw|w|0|10|3|ff").is_none());
    assert!(RawPosition::from_line("fen|1||w|0|10|3|ff").is_none());
    assert_eq!(RawPosition::from_line("fen|1|1.0|w|0|10|3|ff").expect("real result").wdl, "1.0");
    let r = RawPosition::from_line("fen w|1|0.5|b|0|10|3| ff \r").expect("hash is trimmed");
    assert_eq!(r.pawn_hash, 255);
    assert_eq!(r.stm, Color::Black);
}

#[test]
fn side_to_move_score() {
    let w = rec("8/8/8/8/8/8/8/K6k w - -", 50, 0, 1);
    let b = rec("8/8/8/8/8/8/8/K6k b - -", 50, 0, 1);
    let none = rec("8/8/8/8/8/8/8/K6k", 50, 0, 1);
    assert!(w.is_white_to_move());
    assert!(!b.is_white_to_move());
    assert!(none.is_white_to_move());
    assert_eq!(w.stm_score(), 50);
    assert_eq!(b.stm_score(), -50);
}

#[test]
fn hard_filters_in_order() {
    let mut config = FilterConfig::default();
    assert_eq!(apply_filters(&rec("x w", 3001, 0, 0), &config), FilterResult::ScoreTooHigh);
    assert_eq!(apply_filters(&rec("x w", -3000, 0, 0), &config), FilterResult::Keep);
    config.min_score = 20;
    assert_eq!(apply_filters(&rec("x w", 19, 0, 0), &config), FilterResult::ScoreTooLow);
    config.net_id = Some(1);
    assert_eq!(apply_filters(&rec("x w", 25, 0, 0), &config), FilterResult::WrongNetId);
    assert_eq!(apply_filters(&rec("x w", 25, 1, 0), &config), FilterResult::Keep);
    assert_eq!(apply_filters(&rec("x w", i32::MIN, 1, 0), &config), FilterResult::ScoreTooLow);
}

#[test]
fn balance_threshold() {
    let config = FilterConfig::default();
    assert!(is_balanced(&rec("x w", -100, 0, 0), &config));
    assert!(!is_imbalanced(&rec("x w", -100, 0, 0), &config));
    assert!(is_imbalanced(&rec("x w", 101, 0, 0), &config));
}

#[test]
fn collect_counts_and_limits_pawn_structures() {
    let mut config = FilterConfig::default();
    config.max_per_pawn_hash = 2;
    let input = vec![
        rec("a w", 10, 0, 7),
        rec("b b", 200, 0, 7),
        rec("c w", 5000, 0, 7),
        rec("d w", -300, 0, 7),
        rec("e w", 30, 0, 8),
    ];
    let (kept, stats) = collect_and_filter(input, &config);
    let fens: Vec<&str> = kept.iter().map(|p| p.fen.as_str()).collect();
    assert_eq!(fens, vec!["a w", "b b", "e w"]);
    assert_eq!(
        stats,
        BalanceStats {
            total_read: 5,
            dropped_hard_filter: 1,
            dropped_pawn_hash: 1,
            kept: 3,
            balanced: 2,
            imbalanced: 1,
            positive_stm: 2,
        }
    );
    assert_eq!(BalanceStats::default().kept, 0);
}

#[test]
fn no_pawn_limit_when_zero() {
    let mut config = FilterConfig::default();
    config.max_per_pawn_hash = 0;
    let input = vec![rec("a w", 1, 0, 3), rec("b w", 2, 0, 3), rec("c w", 3, 0, 3)];
    let (kept, stats) = collect_and_filter(input, &config);
    assert_eq!(kept.len(), 3);
    assert_eq!(stats.dropped_pawn_hash, 0);
}

#[test]
fn shuffle_is_a_permutation() {
    let mut data: Vec<RawPosition> = (0..20).map(|i| rec(&format!("p{} w", i), i, 0, i as u64)).collect();
    shuffle(&mut data, Some(42));
    let mut scores: Vec<i32> = data.iter().map(|p| p.score).collect();
    let moved = scores.iter().enumerate().any(|(i, s)| *s != i as i32);
    scores.sort();
    assert_eq!(scores, (0..20).collect::<Vec<i32>>());
    assert!(moved);
    let mut again: Vec<RawPosition> = (0..20).map(|i| rec(&format!("p{} w", i), i, 0, i as u64)).collect();
    shuffle(&mut again, Some(42));
    let first: Vec<i32> = data.iter().map(|p| p.score).collect();
    let second: Vec<i32> = again.iter().map(|p| p.score).collect();
    assert_eq!(first, second);
}

#[test]
fn real_number_texts() {
    for ok in ["1", "0.5", "0", "-0.5", "+1.", ".5", "1e3", "2.5E-2", "inf", "-Infinity", "NaN"] {
        assert!(pea::text::real_text(ok), "{}", ok);
        assert_eq!(ok.parse::<f32>().is_ok(), true);
    }
    for bad in ["", ".", "+", "e5", "1e", "1e+", "1.2.3", " 1", "1 ", "infin", "0x1", "1_0"] {
        assert!(!pea::text::real_text(bad), "{}", bad);
        assert_eq!(bad.parse::<f32>().is_ok(), false);
    }
}

#[test]
fn output_is_shuffled_then_cut_to_the_target() {
    let data = |n: i32| -> Vec<RawPosition> { (0..n).map(|i| rec(&format!("p{} w", i), i, 0, i as u64)).collect() };
    let mut config = FilterConfig::default();
    config.shuffle = false;
    config.target_positions = 5;
    let mut v = data(8);
    assert_eq!(pea::filter::select_output(&mut v, &config), (false, true));
    assert_eq!(v.iter().map(|r| r.score).collect::<Vec<_>>(), vec![0, 1, 2, 3, 4]);
    config.shuffle = true;
    config.shuffle_seed = Some(7);
    let mut v = data(8);
    assert_eq!(pea::filter::select_output(&mut v, &config), (true, true));
    assert_eq!(v.len(), 5);
    let mut v = data(3);
    assert_eq!(pea::filter::select_output(&mut v, &config), (true, false));
    let mut scores: Vec<i32> = v.iter().map(|r| r.score).collect();
    scores.sort();
    assert_eq!(scores, vec![0, 1, 2]);
}
