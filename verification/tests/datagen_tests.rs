use pea::chess::Color;
use pea::chess::ChessMove;
use pea::datagen::{
    check_adjudication, filter_position, game_step, search_verdict, is_threefold, pawn_hash, run_game, terminal_wdl, thread_output_path,
    DatagenConfig, EpdBook, FilterResult, GameResult, RawPosition,
};
use pea::network::{Network, NETWORK_BYTES};
use pea::ordering::MoveOrdering;
use pea::params::Params;
use pea::position::{read_position_from_fen, uci_to_move, Position};
use pea::random::thread_rng;
use pea::tt::TranspositionTable;

fn pos(fen: &str) -> Position {
    read_position_from_fen(fen).expect("valid fen")
}

fn mv(p: &Position, uci: &str) -> ChessMove {
    uci_to_move(p, uci).expect("legal move")
}

#[test]
fn thread_path_is_padded() {
    assert_eq!(thread_output_path("out", 3), "out/positions_thread_03.txt");
    assert_eq!(thread_output_path("out", 12), "out/positions_thread_12.txt");
}

#[test]
fn threefold_needs_eight_entries() {
    assert!(!is_threefold(&vec![1, 2, 1, 2, 1]));
    assert!(is_threefold(&vec![1, 2, 3, 1, 4, 5, 6, 1]));
    assert!(!is_threefold(&vec![1, 2, 3, 1, 4, 5, 6, 7]));
}

#[test]
fn record_line_format() {
    let p = RawPosition {
        fen: "8/8/8/8/8/8/8/K6k w - -".to_string(),
        score: -35,
        wdl: GameResult::Draw,
        stm: Color::White,
        net_id: 1,
        ply: 42,
        nodes: 20000,
        pawn_hash: 0xabc,
    };
    assert_eq!(p.to_line(), "8/8/8/8/8/8/8/K6k w - -|-35|0.5|w|1|42|20000|0000000000000abc");
}

#[test]
fn adjudication_rules() {
    let config = DatagenConfig::default();
    assert_eq!(check_adjudication(&vec![2500; 10], &config), Some(GameResult::WhiteWin));
    assert_eq!(check_adjudication(&vec![2500; 9], &config), None);
    assert_eq!(check_adjudication(&vec![-2001; 12], &config), Some(GameResult::BlackWin));
    let mut near_zero = vec![3000; 5];
    near_zero.extend(vec![10, -10, 0, 5, -5, 1, 2, 3, 4, 9]);
    assert_eq!(check_adjudication(&near_zero, &config), Some(GameResult::Draw));
    let mut mixed = vec![0; 9];
    mixed.push(11);
    assert_eq!(check_adjudication(&mixed, &config), None);
    let mut zero_plies = DatagenConfig::default();
    zero_plies.adjudication_plies = 0;
    assert_eq!(check_adjudication(&vec![], &zero_plies), Some(GameResult::WhiteWin));
}

#[test]
fn default_config() {
    let c = DatagenConfig::default();
    assert_eq!(c.nodes_per_move, 20_000);
    assert_eq!(c.num_threads, 10);
    assert_eq!(c.adjudication_score, 2000);
    assert!(c.epd_path.is_none());
    assert_eq!(c.net_0_path, "../../nnue/run8_2_net_0/run8_2_net_0-10/quantised.bin");
}

#[test]
fn position_filter_reasons() {
    let start = Position::new();
    let quiet = mv(&start, "g1f3");
    assert_eq!(filter_position(&start, &quiet, 20, 29_500), FilterResult::Keep);
    assert_eq!(filter_position(&start, &quiet, -29_500, 29_500), FilterResult::IsMateScore);
    let capture_pos = pos("4k3/8/8/3p4/4P3/8/8/4K3 w - - 0 1");
    let capture = mv(&capture_pos, "e4d5");
    assert_eq!(filter_position(&capture_pos, &capture, 0, 29_500), FilterResult::IsCapture);
    let promo_pos = pos("4k3/P7/8/8/8/8/8/4K3 w - - 0 1");
    let promo = mv(&promo_pos, "a7a8q");
    assert_eq!(filter_position(&promo_pos, &promo, 0, 29_500), FilterResult::IsPromotion);
    let check_pos = pos("4k3/8/8/8/8/8/8/r3K3 w - - 0 1");
    let evade = mv(&check_pos, "e1e2");
    assert_eq!(filter_position(&check_pos, &evade, 0, 29_500), FilterResult::InCheck);
}

#[test]
fn results_of_final_positions() {
    assert_eq!(terminal_wdl(&pos("R5k1/5ppp/8/8/8/8/8/6K1 b - - 1 1")), GameResult::WhiteWin);
    assert_eq!(terminal_wdl(&pos("7k/8/8/8/8/8/5PPP/r5K1 w - - 0 1")), GameResult::BlackWin);
    assert_eq!(terminal_wdl(&pos("7k/5Q2/6K1/8/8/8/8/8 b - - 0 1")), GameResult::Draw);
    assert_eq!(terminal_wdl(&Position::new()), GameResult::Draw);
}

#[test]
fn pawn_hash_of_start_position() {
    let start = Position::new();
    let mut expected: u64 = 0;
    for sq in 8u64..16 {
        expected ^= sq.wrapping_mul(0x9e3779b97f4a7c15);
    }
    for sq in 48u64..56 {
        expected ^= sq.wrapping_mul(0x6c62272e07bb0142);
    }
    assert_eq!(pawn_hash(&start), expected);
    assert_eq!(pawn_hash(&pos("4k3/8/8/8/8/8/8/4K3 w - - 0 1")), 0);
}

#[test]
fn epd_book_keeps_four_fields() {
    let text = "rnbqkbnr/pppppppp/8/8/8/8/PPPPPPPP/RNBQKBNR w KQkq - bm e4; id \"x\"\r\n\n  short line\n4k3/8/8/8/8/8/8/4K3 b - -\n";
    let book = EpdBook::parse(text);
    assert_eq!(
        book.fens,
        vec!["rnbqkbnr/pppppppp/8/8/8/8/PPPPPPPP/RNBQKBNR w KQkq -", "4k3/8/8/8/8/8/8/4K3 b - -"]
    );
    let mut rng = thread_rng();
    let p = book.random_position(&mut rng).expect("both fens are valid");
    let fen = p.fen();
    assert!(fen.starts_with("rnbqkbnr") || fen.starts_with("4k3"));
    assert!(EpdBook::parse("").random_position(&mut rng).is_none());
}

#[test]
fn a_short_game_yields_records_with_one_result() {
    let bytes = vec![0u8; NETWORK_BYTES];
    let net = Network::load(&bytes).expect("right size");
    let mut config = DatagenConfig::default();
    config.nodes_per_move = 500;
    config.random_opening_plies = 0;
    let params = Params::default();
    let ordering = MoveOrdering::new(&[100, 300, 300, 500, 900, 0]);
    let mut tt_0 = TranspositionTable::new(1);
    let mut tt_1 = TranspositionTable::new(1);
    let lmr = vec![1u8; 64 * 64];
    let mut rng = thread_rng();
    let records = run_game(&config, None, &net, &net, &params, &ordering, &mut tt_0, &mut tt_1, &lmr, &mut rng);
    for r in &records {
        assert_eq!(r.wdl, records[0].wdl);
        assert!(r.net_id <= 1);
        assert_eq!(r.net_id == 0, r.stm == Color::White);
        let fields: Vec<&str> = r.fen.split(' ').collect();
        assert_eq!(fields.len(), 4);
        assert_eq!(fields[1], if r.stm == Color::White { "w" } else { "b" });
        let board = read_position_from_fen(&format!("{} 0 1", r.fen)).expect("record fen is a position");
        assert_eq!(r.pawn_hash, pea::hash::Hash::pawnhash(&board).0);
        assert!(r.score.abs() < 29_500);
    }
    for w in records.windows(2) {
        assert!(w[0].ply < w[1].ply);
    }
}

#[test]
fn unbalanced_openings_and_missing_moves_end_the_game() {
    assert_eq!(search_verdict(true, 151, true), Some(GameResult::Draw));
    assert_eq!(search_verdict(true, -151, true), Some(GameResult::Draw));
    assert_eq!(search_verdict(true, 150, true), None);
    assert_eq!(search_verdict(false, 900, true), None);
    assert_eq!(search_verdict(false, 0, false), Some(GameResult::Draw));
}

#[test]
fn a_game_step_keeps_ends_or_drops() {
    let config = DatagenConfig::default();
    let p = pos("rnbqkbnr/pppppppp/8/8/4P3/8/PPPP1PPP/RNBQKBNR b KQkq e3 0 1");
    let mv = uci_to_move(&p, "e7e5").unwrap();
    let mut history: Vec<i32> = Vec::new();
    let mut kept: Vec<RawPosition> = Vec::new();
    assert_eq!(game_step(&p, true, 400, Some(mv), 1, 10, &mut history, &mut kept, &config), Some(GameResult::Draw));
    assert!(history.is_empty() && kept.is_empty());
    assert_eq!(game_step(&p, false, 0, None, 1, 10, &mut history, &mut kept, &config), Some(GameResult::Draw));
    assert_eq!(game_step(&p, true, 40, Some(mv), 1, 10, &mut history, &mut kept, &config), None);
    assert_eq!(history, vec![-40]);
    assert_eq!(kept.len(), 1);
    let r = &kept[0];
    assert_eq!(r.fen, "rnbqkbnr/pppppppp/8/8/4P3/8/PPPP1PPP/RNBQKBNR b KQkq -");
    assert_eq!(r.score, -40);
    assert_eq!(r.stm, Color::Black);
    assert_eq!(r.net_id, 1);
    assert_eq!((r.ply, r.nodes), (1, 10));
    assert_eq!(r.pawn_hash, pea::hash::Hash::pawnhash(&p).0);
}
