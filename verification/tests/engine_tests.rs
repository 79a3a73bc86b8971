use std::sync::atomic::{AtomicBool, AtomicU64};
use std::sync::Arc;

use pea::context::build_search_context;
use pea::datagen::QuietObserver;
use pea::engine::{Engine, Threads};
use pea::eval::{evaluate, hce, material_count};
use pea::network::{Network, NETWORK_BYTES};
use pea::nnue_state::NNUEState;
use pea::ordering::MoveOrdering;
use pea::params::Params;
use pea::position::{move_to_uci, read_position_from_fen, uci_to_move, Position};
use pea::pv::PvTable;
use pea::search::{negamax, pv_to_string, quiescence, search};
use pea::see::see;
use pea::tt::TranspositionTable;

fn zero_net() -> Network {
    Network::load(&vec![0u8; NETWORK_BYTES]).expect("right size")
}

fn pos(fen: &str) -> Position {
    read_position_from_fen(fen).expect("valid fen")
}

#[test]
fn network_needs_exact_size() {
    assert!(Network::load(&vec![0u8; 10]).is_none());
    assert!(Network::load(&vec![0u8; NETWORK_BYTES + 1]).is_none());
}

#[test]
fn search_finds_mate_in_one() {
    let net = zero_net();
    let p = pos("6k1/5ppp/8/8/8/8/8/R5K1 w - - 0 1");
    let mut ctx = build_search_context(
        TranspositionTable::new(1),
        Params::default(),
        MoveOrdering::new(&[100, 300, 300, 500, 900, 0]),
        &net,
        vec![p.zobrist()],
        NNUEState::new(p.state(), &net),
        Arc::new(AtomicBool::new(false)),
        Arc::new(AtomicU64::new(0)),
        true,
        Some(60_000),
        vec![1u8; 64 * 64],
    );
    let (score, best, _pv) = search(&p, &mut ctx, 3, 60_000, &mut QuietObserver);
    let best = best.expect("a move");
    assert_eq!(move_to_uci(&best), "a1a8");
    assert!(score > 29_000);
}

#[test]
fn exchange_evaluation() {
    let p = pos("4k3/8/8/3p4/4P3/8/8/4K3 w - - 0 1");
    let m = uci_to_move(&p, "e4d5").unwrap();
    assert_eq!(see(&p, m), 100);
    let defended = pos("4k3/8/4p3/3p4/4Q3/8/8/4K3 w - - 0 1");
    let m2 = uci_to_move(&defended, "e4d5").unwrap();
    assert_eq!(see(&defended, m2), 100 - 900);
}

#[test]
fn simple_evaluations() {
    let start = Position::new();
    assert_eq!(material_count(start.state()), 2 * (8 + 3 * 2 + 3 * 2 + 5 * 2 + 9));
    assert_eq!(hce(&start), 20);
    let up_a_queen = pos("4k3/8/8/8/8/8/8/3QK3 b - - 0 1");
    let moves = up_a_queen.legal_moves().len() as i32;
    assert_eq!(moves, 3);
    assert_eq!(hce(&up_a_queen), 900 - moves);
}

#[test]
fn engine_position_setup() {
    let net = zero_net();
    let mut engine = Engine::new(1, &net);
    assert_eq!(engine.repetition_stack, vec![Position::new().zobrist()]);
    let moves = vec!["e2e4".to_string(), "e7e5".to_string(), "g1f3".to_string()];
    assert!(engine.set_position(None, &moves));
    assert_eq!(engine.repetition_stack.len(), 4);
    assert_eq!(engine.position.fen(), "rnbqkbnr/pppp1ppp/8/4p3/4P3/5N2/PPPP1PPP/RNBQKB1R b KQkq - 1 2");
    assert_eq!(engine.repetition_stack[3], engine.position.zobrist());
    let bad = vec!["e2e4".to_string(), "e2e4".to_string()];
    assert!(!engine.set_position(None, &bad));
    assert!(!engine.set_position(Some("not a fen"), &vec![]));
    assert!(engine.set_position(Some("4k3/8/8/8/8/8/8/4K3 w - - 0 1"), &vec![]));
    assert_eq!(engine.repetition_stack.len(), 1);
    engine.new_game();
    assert_eq!(engine.position.fen(), Position::new().fen());
    assert!(engine.repetition_stack.is_empty());
}

#[test]
fn main_thread_search_keeps_the_table() {
    let net = zero_net();
    let mut engine = Engine::new(1, &net);
    let p = pos("6k1/5ppp/8/8/8/8/8/R5K1 w - - 0 1");
    let ordering = MoveOrdering::new(&[100, 300, 300, 500, 900, 0]);
    let (score, best, _pv, stats) = Threads::main_search(
        &p,
        &mut engine,
        &ordering,
        2,
        u64::MAX,
        60_000,
        Arc::new(AtomicBool::new(false)),
        Arc::new(AtomicU64::new(0)),
        &vec![1u8; 64 * 64],
        &mut QuietObserver,
    );
    assert_eq!(move_to_uci(&best.unwrap()), "a1a8");
    assert!(score > 29_000);
    assert!(stats.nodes > 0);
    assert!(engine.tt.probe(p.zobrist()).is_some());
}

#[test]
fn helper_thread_depths() {
    assert_eq!(Threads::helper_depth(10, 1), 10);
    assert_eq!(Threads::helper_depth(10, 2), 11);
    assert_eq!(Threads::helper_depth(10, 3), 10);
    assert_eq!(Threads::helper_depth(10, 4), 13);
}

#[test]
fn principal_variation_text() {
    let start = Position::new();
    let a = uci_to_move(&start, "e2e4").unwrap();
    let b = uci_to_move(&start.play(a), "e7e5").unwrap();
    assert_eq!(pv_to_string(&vec![Some(a), None, Some(b)]), "e2e4 e7e5");
    assert_eq!(pv_to_string(&vec![None, None]), "");
}

#[test]
fn move_generation_counts() {
    let start = Position::new();
    assert_eq!(pea::position::perft(&start, 1), 20);
    assert_eq!(pea::position::perft(&start, 3), 8902);
    assert_eq!(start.legal_moves().len(), 20);
    assert!(start.capture_moves().is_empty());
    let kiwipete = pos("r3k2r/p1ppqpb1/bn2pnp1/3PN3/1p2P3/2N2Q1p/PPPBBPPP/R3K2R w KQkq - 0 1");
    assert_eq!(pea::position::perft(&kiwipete, 2), 2039);
}

#[test]
fn slider_attacks() {
    let rook = pea::position::rook_attacks(0, 0);
    assert_eq!(rook, 0x0101_0101_0101_01fe);
    let bishop = pea::position::bishop_attacks(0, 0);
    assert_eq!(bishop, 0x8040_2010_0804_0200);
    let blocked = pea::position::rook_attacks(0, 0x0000_0000_0000_0100);
    assert_eq!(blocked, 0x0000_0000_0000_01fe);
}

#[test]
fn game_end_predicates() {
    let mated = pos("R5k1/5ppp/8/8/8/8/8/6K1 b - - 1 1");
    assert!(mated.is_check());
    assert!(mated.is_checkmate());
    assert!(!mated.is_stalemate());
    let stalemate = pos("7k/5Q2/6K1/8/8/8/8/8 b - - 0 1");
    assert!(stalemate.is_stalemate());
    assert!(pos("4k3/8/8/8/8/8/8/4KB2 w - - 0 1").is_insufficient_material());
    assert!(!Position::new().is_insufficient_material());
    let flipped = Position::new().swap_turn().expect("no check, so the turn can pass");
    assert!(flipped.fen().contains(" b "));
}

#[test]
fn mated_root_scores_mate() {
    let net = zero_net();
    let p = pos("R5k1/5ppp/8/8/8/8/8/6K1 b - - 1 1");
    let mut ctx = build_search_context(
        TranspositionTable::new(1),
        Params::default(),
        MoveOrdering::new(&[100, 300, 300, 500, 900, 0]),
        &net,
        vec![p.zobrist()],
        NNUEState::new(p.state(), &net),
        Arc::new(AtomicBool::new(false)),
        Arc::new(AtomicU64::new(0)),
        false,
        Some(60_000),
        vec![1u8; 64 * 64],
    );
    let mut pv = PvTable::new();
    assert_eq!(negamax(&p, &mut ctx, 4, 0, -32_000, 32_000, true, &mut pv), -30_000);
    assert!(pv.best_move().is_none());
}

fn context_for<'a>(net: &'a Network, p: &Position, stop: bool) -> pea::context::SearchContext<'a> {
    build_search_context(
        TranspositionTable::new(1),
        Params::default(),
        MoveOrdering::new(&[100, 300, 300, 500, 900, 0]),
        net,
        vec![p.zobrist()],
        NNUEState::new(p.state(), net),
        Arc::new(AtomicBool::new(stop)),
        Arc::new(AtomicU64::new(0)),
        false,
        Some(60_000),
        vec![1u8; 64 * 64],
    )
}

#[test]
fn a_stopped_search_answers_a_draw_and_keeps_the_line() {
    let net = zero_net();
    let p = Position::new();
    let mut ctx = context_for(&net, &p, true);
    let mut pv = PvTable::new();
    assert_eq!(negamax(&p, &mut ctx, 3, 1, -100, 100, true, &mut pv), 0);
    assert!(ctx.stop_seen);
    assert_eq!(pv.best_move(), None);
    assert_eq!(ctx.excluded_move.iter().filter(|m| m.is_some()).count(), 0);
}

#[test]
fn a_mated_node_keeps_the_line() {
    let net = zero_net();
    let p = pos("R5k1/5ppp/8/8/8/8/8/6K1 b - - 1 1");
    let mut ctx = context_for(&net, &p, false);
    let mut pv = PvTable::new();
    assert_eq!(negamax(&p, &mut ctx, 5, 7, -100, 100, true, &mut pv), -30_000 + 7);
    assert_eq!(pv.best_move(), None);
}

#[test]
fn deep_plies_are_searched() {
    let net = zero_net();
    let p = Position::new();
    let mut ctx = context_for(&net, &p, false);
    let mut pv = PvTable::new();
    let score = negamax(&p, &mut ctx, 2, 120, -500, 500, true, &mut pv);
    assert!(score.abs() < 30_000);
    let score = negamax(&p, &mut ctx, 5000, 127, -500, 500, true, &mut pv);
    assert!(score.abs() < 30_000);
}

#[test]
fn quiescence_stands_pat_within_the_window() {
    let net = zero_net();
    let p = pos("4k3/8/8/3p4/4P3/8/8/4K3 w - - 0 1");
    let mut ctx = context_for(&net, &p, false);
    let eval = evaluate(p.state(), &net, &ctx.nnue.us, &ctx.nnue.them);
    let r = quiescence(&p, &mut ctx, -1000, 1000, 0);
    assert!(-1000 <= r && r <= 1000);
    assert!(r >= eval);
    let mut ctx = context_for(&net, &p, false);
    assert_eq!(quiescence(&p, &mut ctx, eval - 200, eval - 100, 0), eval - 100);
}

#[test]
fn a_leaf_scores_at_least_its_static_evaluation() {
    let net = zero_net();
    let p = pos("4k3/8/8/3p4/4P3/8/8/4K3 w - - 0 1");
    let mut ctx = context_for(&net, &p, false);
    let eval = evaluate(p.state(), &net, &ctx.nnue.us, &ctx.nnue.them);
    let mut pv = PvTable::new();
    let r = negamax(&p, &mut ctx, 0, 0, -1000, 1000, true, &mut pv);
    assert!(r >= eval && r <= 1000);
}

#[test]
fn a_node_failing_low_keeps_the_line() {
    let net = zero_net();
    let p = Position::new();
    let mut ctx = context_for(&net, &p, false);
    let mut pv = PvTable::new();
    let r = negamax(&p, &mut ctx, 2, 0, 20_000, 20_001, true, &mut pv);
    assert!(r <= 20_000);
    assert_eq!(pv.best_move(), None);
}

#[test]
fn main_search_keeps_history_and_raises_the_stop_flag() {
    let net = zero_net();
    let mut engine = Engine::new(1, &net);
    let p = Position::new();
    let ordering = MoveOrdering::new(&[100, 300, 300, 500, 900, 0]);
    let stop = Arc::new(AtomicBool::new(false));
    let (_score, best, _pv, _stats) = Threads::main_search(
        &p,
        &mut engine,
        &ordering,
        5,
        u64::MAX,
        60_000,
        stop.clone(),
        Arc::new(AtomicU64::new(0)),
        &vec![1u8; 64 * 64],
        &mut QuietObserver,
    );
    assert!(best.is_some());
    assert!(stop.load(std::sync::atomic::Ordering::Relaxed));
    let touched = engine.history_tables.quiet.table.iter().any(|&h| h != 0)
        || engine.history_tables.continuation.table.iter().any(|&h| h != 0);
    assert!(touched);
    assert_eq!(engine.history_tables.quiet.table.len(), 8192);
}

#[test]
fn a_deep_enough_table_entry_cuts_the_node() {
    let net = zero_net();
    let p = Position::new();
    let mut ctx = context_for(&net, &p, false);
    ctx.tt.store(p.zobrist(), 10, 123, 0, pea::tt::Bound::Exact, None);
    let mut pv = PvTable::new();
    assert_eq!(negamax(&p, &mut ctx, 3, 1, -500, 500, true, &mut pv), 123);
    assert_eq!(pv.best_move(), None);
}

#[test]
fn a_mate_in_one_is_found_at_a_pv_node() {
    let net = zero_net();
    let p = pos("6k1/5ppp/8/8/8/8/8/R5K1 w - - 0 1");
    let mut ctx = context_for(&net, &p, false);
    let mut pv = PvTable::new();
    let r = negamax(&p, &mut ctx, 1, 0, -32_000, 32_000, true, &mut pv);
    assert!(r >= 30_000 - 1);
    assert_eq!(move_to_uci(&pv.best_move().unwrap()), "a1a8");
}

#[test]
fn a_capture_free_leaf_stands_pat() {
    let net = zero_net();
    let p = pos("4k3/8/8/8/8/8/8/4K3 w - - 0 1");
    let mut ctx = context_for(&net, &p, false);
    let eval = evaluate(p.state(), &net, &ctx.nnue.us, &ctx.nnue.them);
    assert_eq!(quiescence(&p, &mut ctx, eval - 10, eval + 10, 0), eval);
    let mut ctx = context_for(&net, &p, false);
    assert_eq!(quiescence(&p, &mut ctx, eval + 5, eval + 10, 0), eval + 5);
}
