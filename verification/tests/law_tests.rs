use pea::corrhist::{CorrectionHistoryTable, PawnKey, MAX};
use pea::hash::generate_piece_hashes;
use pea::history::update_history_value;
use pea::chess::{Color, Role};
use pea::network::{Accumulator, Network, NETWORK_BYTES};
use pea::nnue_state::{make_move_nnue, unmake_move_nnue, NNUEState};
use pea::position::{uci_to_move, Position};
use pea::types::MAX_HISTORY;

fn patterned_net() -> Network {
    let bytes: Vec<u8> = (0..NETWORK_BYTES).map(|i| (i * 7 % 251) as u8).collect();
    Network::load(&bytes).expect("right size")
}

#[test]
fn make_then_unmake_restores_accumulators() {
    let net = patterned_net();
    let start = Position::new();
    let mut state = NNUEState::new(start.state(), &net);
    let us = state.us.vals.clone();
    let them = state.them.vals.clone();
    let mv = uci_to_move(&start, "g1f3").unwrap();
    make_move_nnue(start.state(), &mv, &net, &mut state);
    assert_ne!(state.them.vals, us);
    assert_eq!(state.stack.len(), 1);
    let after = start.play(mv);
    let fresh = NNUEState::new(after.state(), &net);
    assert_eq!(state.us.vals, fresh.us.vals);
    assert_eq!(state.them.vals, fresh.them.vals);
    unmake_move_nnue(&net, &mut state);
    assert_eq!(state.us.vals, us);
    assert_eq!(state.them.vals, them);
    assert!(state.stack.is_empty());
}

#[test]
fn feature_add_then_remove_is_identity() {
    let net = patterned_net();
    let mut acc = Accumulator::new(&net);
    let before = acc.vals.clone();
    acc.add_feature(123, &net);
    assert_ne!(acc.vals, before);
    acc.remove_feature(123, &net);
    assert_eq!(acc.vals, before);
    acc.apply_feature_updates(&[5, 700], &[], &net);
    acc.apply_feature_updates(&[], &[700, 5], &net);
    assert_eq!(acc.vals, before);
}

#[test]
fn toggling_a_piece_twice_restores_the_hash() {
    let keys = generate_piece_hashes();
    let mut h = pea::hash::Hash(0x1234);
    h.toggle_piece(&keys, Role::Knight, 21, Color::White);
    assert_ne!(h.0, 0x1234);
    h.toggle_piece(&keys, Role::Knight, 21, Color::White);
    assert_eq!(h.0, 0x1234);
}

#[test]
fn history_values_stay_in_range() {
    let mut v: i16 = 0;
    for _ in 0..100 {
        update_history_value(&mut v, 100_000);
        assert!(v as i32 <= MAX_HISTORY);
    }
    assert_eq!(v as i32, MAX_HISTORY);
    for _ in 0..100 {
        update_history_value(&mut v, -100_000);
        assert!(v as i32 >= -MAX_HISTORY);
    }
    assert_eq!(v as i32, -MAX_HISTORY);
    let mut w: i16 = 0;
    update_history_value(&mut w, 1000);
    assert_eq!(w, 1000);
}

#[test]
fn corrections_stay_in_range() {
    let start = Position::new();
    let mut table: CorrectionHistoryTable<PawnKey> = CorrectionHistoryTable::new();
    assert_eq!(table.correct_evaluation(&start), 0);
    for _ in 0..50 {
        table.update_correction_history(&start, 20, 30_000);
    }
    let c = table.correct_evaluation(&start);
    assert!(c > 0);
    assert!(c <= MAX);
    table.clear();
    assert_eq!(table.correct_evaluation(&start), 0);
}

#[test]
fn a_fresh_table_gives_back_its_one_entry() {
    let mut tt = pea::tt::TranspositionTable::new(1);
    tt.store(0xdead_beef, 9, -1234, 56, pea::tt::Bound::Upper, None);
    let e = tt.probe(0xdead_beef).expect("stored");
    assert_eq!((e.depth, e.score, e.eval, e.bound, e.best_move), (9, -1234, 56, pea::tt::Bound::Upper, None));
    assert!(tt.probe(0x1234_5678).is_none());
    assert!(tt.probe(0xdead_beef ^ (1 << 40)).is_none());
}

#[test]
fn the_time_limit_stays_between_its_scales() {
    let start = std::time::Instant::now();
    let p = Position::new();
    let m = uci_to_move(&p, "e2e4").unwrap();
    let mut tm = pea::time_manager::TimeManager::new(1000, start);
    tm.update(100, Some(m));
    assert_eq!(tm.current_limit_ms, 1188);
    let mut tm = pea::time_manager::TimeManager::new(1000, start);
    for _ in 0..7 {
        tm.update(0, None);
        assert!(600 <= tm.current_limit_ms && tm.current_limit_ms <= 2500);
    }
    assert_eq!(tm.current_limit_ms, 675);
}

#[test]
fn an_exchange_loses_at_most_the_piece_that_moved() {
    let p = pea::position::read_position_from_fen("4k3/8/3p4/4p3/8/8/8/4QK2 w - - 0 1").unwrap();
    let mv = uci_to_move(&p, "e1e5").unwrap();
    let v = pea::see::see(&p, mv) as i32;
    assert!(100 - 900 <= v && v <= 100);
    assert_eq!(v, -800);
}
