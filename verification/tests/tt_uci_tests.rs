use pea::chess::ChessMove;
use pea::position::{read_position_from_fen, uci_to_move, Position};
use pea::tt::{decode_move_partial, encode_move, next_power_of_two, score_from_tt, score_to_tt, validate_move, Bound,
    TranspositionTable};
use pea::uci::{can_parse, decide_option, parse_command, OptionAction, UciCommand, UciState};

#[test]
fn mate_scores_are_ply_relative_in_the_table() {
    assert_eq!(score_to_tt(29_990, 5), 29_995);
    assert_eq!(score_from_tt(29_995, 5), 29_990);
    assert_eq!(score_to_tt(-29_990, 5), -29_995);
    assert_eq!(score_from_tt(score_to_tt(-29_990, 7), 7), -29_990);
    assert_eq!(score_to_tt(120, 9), 120);
}

#[test]
fn table_store_then_probe() {
    let mut tt = TranspositionTable::new(1);
    let start = Position::new();
    let mv = uci_to_move(&start, "g1f3").unwrap();
    let key = start.zobrist();
    assert!(tt.probe(key).is_none());
    tt.store(key, 7, 35, 12, Bound::Exact, Some(mv));
    let e = tt.probe(key).expect("stored");
    assert_eq!(e.depth, 7);
    assert_eq!(e.score, 35);
    assert_eq!(e.eval, 12);
    assert_eq!(e.bound, Bound::Exact);
    assert_eq!(tt.probe_move(key, &start.legal_moves()), Some(mv));
    tt.clear();
    assert!(tt.probe(key).is_none());
}

#[test]
fn move_codes() {
    let start = Position::new();
    let legal = start.legal_moves();
    let mv = uci_to_move(&start, "e2e4").unwrap();
    let code = encode_move(Some(mv));
    assert_ne!(code, 0);
    assert_eq!(encode_move(None), 0);
    assert!(decode_move_partial(code).is_some());
    assert_eq!(validate_move(code, &legal), Some(mv));
    let other: Vec<ChessMove> = legal.into_iter().filter(|m| *m != mv).collect();
    assert_eq!(validate_move(code, &other), None);
}

fn stored_move_comes_back(fen: &str, uci: &str) -> ChessMove {
    let pos = read_position_from_fen(fen).expect("valid fen");
    let mv = uci_to_move(&pos, uci).expect("legal move");
    let mut tt = TranspositionTable::new(1);
    let key = pos.zobrist();
    tt.store(key, 3, 10, 10, Bound::Lower, Some(mv));
    assert_eq!(tt.probe_move(key, &pos.legal_moves()), Some(mv));
    mv
}

#[test]
fn castling_comes_back_from_the_table() {
    let mv = stored_move_comes_back("r3k2r/8/8/8/8/8/8/R3K2R w KQkq - 0 1", "e1g1");
    assert!(matches!(mv, ChessMove::Castle { .. }));
    let code = encode_move(Some(mv));
    assert_eq!(code >> 14, 2);
    assert_eq!(decode_move_partial(code), Some(ChessMove::Castle { king: 4, rook: 7 }));
}

#[test]
fn en_passant_comes_back_from_the_table() {
    let mv = stored_move_comes_back("rnbqkbnr/ppp1p1pp/8/3pPp2/8/8/PPPP1PPP/RNBQKBNR w KQkq f6 0 3", "e5f6");
    assert_eq!(mv, ChessMove::EnPassant { from: 36, to: 45 });
    let code = encode_move(Some(mv));
    assert_eq!(code, 36 | (45 << 6) | (1 << 14));
    assert_eq!(decode_move_partial(code), Some(mv));
}

#[test]
fn knight_promotion_comes_back_from_the_table() {
    let mv = stored_move_comes_back("8/P7/8/8/8/8/8/k6K w - - 0 1", "a7a8n");
    let code = encode_move(Some(mv));
    assert_eq!(code >> 14, 3);
    assert_eq!(encode_move(decode_move_partial(code)), code);
    let queen = stored_move_comes_back("8/P7/8/8/8/8/8/k6K w - - 0 1", "a7a8q");
    assert_eq!(encode_move(Some(queen)), 48 | (56 << 6) | (1 << 12));
}

#[test]
fn powers_of_two() {
    assert_eq!(next_power_of_two(0), 1);
    assert_eq!(next_power_of_two(1), 1);
    assert_eq!(next_power_of_two(65_537), 131_072);
    assert_eq!(TranspositionTable::new(1).tt_occupancy(), 0);
}

#[test]
fn go_command() {
    assert!(can_parse("go wtime 1000 btime 2000 winc 10 binc 20 depth 9"));
    match parse_command("go wtime 1000 btime 2000 winc 10 binc 20 depth 9") {
        UciCommand::Go { wtime, btime, winc, binc, depth, movetime, ponder } => {
            assert_eq!((wtime, btime, winc, binc, depth, movetime, ponder),
                (Some(1000), Some(2000), Some(10), Some(20), Some(9), None, false));
        }
        _ => panic!("expected go"),
    }
}

#[test]
fn position_and_options() {
    match parse_command("position startpos moves e2e4 e7e5") {
        UciCommand::Position { fen, moves } => {
            assert!(fen.is_none());
            assert_eq!(moves, vec!["e2e4", "e7e5"]);
        }
        _ => panic!("expected position"),
    }
    match parse_command("position fen 4k3/8/8/8/8/8/8/4K3 w - - 0 1 moves e1e2") {
        UciCommand::Position { fen, moves } => {
            assert_eq!(fen.as_deref(), Some("4k3/8/8/8/8/8/8/4K3 w - - 0 1"));
            assert_eq!(moves, vec!["e1e2"]);
        }
        _ => panic!("expected position"),
    }
    match parse_command("setoption name Move Overhead value 50") {
        UciCommand::SetOption { name, value } => {
            assert_eq!(name, "Move Overhead");
            assert_eq!(value, "50");
        }
        _ => panic!("expected setoption"),
    }
    assert!(matches!(parse_command("isready"), UciCommand::IsReady));
    assert!(matches!(parse_command("frobnicate"), UciCommand::Unknown));
    assert!(matches!(parse_command(""), UciCommand::Unknown));
}

#[test]
fn option_values_are_clamped() {
    assert_eq!(decide_option("Hash", "4096"), OptionAction::Hash(1024));
    assert_eq!(decide_option("hash", "0"), OptionAction::Hash(1));
    assert_eq!(decide_option("Threads", "300"), OptionAction::Ignore);
    assert_eq!(decide_option("Threads", "200"), OptionAction::Threads(128));
    assert_eq!(decide_option("MultiPV", "3"), OptionAction::MultiPv(3));
    assert_eq!(decide_option("UCI_ShowWDL", "TRUE"), OptionAction::ShowWdl(true));
    assert_eq!(decide_option("rfp_margin", "80"), OptionAction::SetParam);
}

#[test]
fn uci_state_updates() {
    let mut s = UciState::new(false);
    assert_eq!(s.threads, 1);
    assert_eq!(s.move_overhead, 10);
    s.save_time(Some(1), Some(2), None, Some(4));
    assert_eq!((s.last_wtime, s.last_btime, s.last_winc, s.last_binc), (Some(1), Some(2), None, Some(4)));
    s.set_threads(4);
    s.set_move_overhead(30);
    assert_eq!((s.threads, s.move_overhead), (4, 30));
    s.stop();
    assert!(s.stop.load(std::sync::atomic::Ordering::Relaxed));
    s.reset_stop();
    assert!(!s.stop.load(std::sync::atomic::Ordering::Relaxed));
}

#[test]
fn parameter_names_are_lower_cased() {
    let mut p = pea::params::Params::default();
    pea::params::set_param(&mut p, "SE_DEPTH_OK", "7");
    assert_eq!(p.se_depth_ok, 7);
    pea::params::set_param(&mut p, "se_depth_o\u{212A}", "9");
    assert_eq!(p.se_depth_ok, 9);
    pea::params::set_param(&mut p, "se_depth_ok", "x");
    assert_eq!(p.se_depth_ok, 9);
    pea::params::set_param(&mut p, "se_depth_o\u{212B}", "3");
    assert_eq!(p.se_depth_ok, 9);
}
