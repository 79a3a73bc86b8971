//! Incremental accumulators during search: each move records the features it
//! removes and adds (for both perspectives, in the input buckets of the position
//! it was played from), applies them, and swaps the two accumulators because the
//! side to move changes; unmaking applies the record backwards.

use vstd::prelude::*;
use crate::chess::{BoardState, ChessMove, Color, Role, role_index};
use crate::network::{Accumulator, Network, L1, NUM_FEATURES, NUM_INPUT_BUCKETS, apply_all, spec_calculate_index,
    spec_get_bucket, get_bucket, calculate_index, accumulator_for_perspective, acc_of_board, lemma_update_undo};

verus! {

/// Features a move changed, as (side to move's index, opponent's index) pairs.
pub struct AccumulatorDelta {
    pub removed: Vec<(usize, usize)>,
    pub added: Vec<(usize, usize)>,
}

/// The two accumulators of the current position (side to move first) and the
/// changes of the moves that led to it.
pub struct NNUEState {
    pub us: Accumulator,
    pub them: Accumulator,
    pub stack: Vec<AccumulatorDelta>,
}

/// Every index a delta names is a feature of the network.
pub open spec fn delta_ok(d: AccumulatorDelta) -> bool {
    &&& forall|k: int| 0 <= k < d.removed@.len() ==> (#[trigger] d.removed@[k]).0 < NUM_FEATURES && d.removed@[k].1 < NUM_FEATURES
    &&& forall|k: int| 0 <= k < d.added@.len() ==> (#[trigger] d.added@[k]).0 < NUM_FEATURES && d.added@[k].1 < NUM_FEATURES
}

/// A delta as plain sequences: (removed, added).
pub open spec fn delta_view(d: AccumulatorDelta) -> (Seq<(usize, usize)>, Seq<(usize, usize)>) {
    (d.removed@, d.added@)
}

impl NNUEState {
    /// The recorded deltas, oldest first.
    pub open spec fn deltas(&self) -> Seq<(Seq<(usize, usize)>, Seq<(usize, usize)>)> {
        self.stack@.map_values(|d: AccumulatorDelta| delta_view(d))
    }

    /// Both accumulators have the network's width and every recorded feature is one
    /// of the network's.
    pub open spec fn wf(&self) -> bool {
        &&& self.us.vals@.len() == L1
        &&& self.them.vals@.len() == L1
        &&& forall|i: int| 0 <= i < self.stack@.len() ==> #[trigger] delta_ok(self.stack@[i])
    }

    /// Accumulators of a position from scratch, for the side to move and its opponent.
    pub fn new(board: &BoardState, net: &Network) -> (r: NNUEState)
        requires
            board.wf(),
            net.wf(),
        ensures
            r.wf(),
            r.stack@.len() == 0,
            r.us.vals@ == acc_of_board(net, *board, board.turn, spec_get_bucket(*board, board.turn).0,
                spec_get_bucket(*board, board.turn).1, 64),
            r.them.vals@ == acc_of_board(net, *board, board.turn.other(), spec_get_bucket(*board, board.turn.other()).0,
                spec_get_bucket(*board, board.turn.other()).1, 64),
    {
        let (us, _b1, _m1) = accumulator_for_perspective(board, net, board.turn);
        let (them, _b2, _m2) = accumulator_for_perspective(board, net, board.turn.other());
        proof {
            lemma_acc_of_board_len(net, *board, board.turn, _b1 as int, _m1, 64);
            lemma_acc_of_board_len(net, *board, board.turn.other(), _b2 as int, _m2, 64);
        }
        NNUEState { us, them, stack: Vec::new() }
    }
}

proof fn lemma_acc_of_board_len(net: &Network, board: BoardState, p: Color, b: int, m: bool, n: int)
    requires
        net.wf(),
    ensures
        acc_of_board(net, board, p, b, m, n).len() == L1,
    decreases n,
{
    if n > 0 {
        lemma_acc_of_board_len(net, board, p, b, m, n - 1);
    }
}

/// First components of a list of index pairs.
pub open spec fn firsts(s: Seq<(usize, usize)>) -> Seq<usize> {
    s.map_values(|p: (usize, usize)| p.0)
}

/// Second components of a list of index pairs.
pub open spec fn seconds(s: Seq<(usize, usize)>) -> Seq<usize> {
    s.map_values(|p: (usize, usize)| p.1)
}

/// Accumulator after removing the columns `removed` and then adding `added`.
pub open spec fn update(vals: Seq<i16>, w: Seq<i16>, removed: Seq<usize>, added: Seq<usize>) -> Seq<i16> {
    apply_all(apply_all(vals, w, removed, false, removed.len() as int), w, added, true, added.len() as int)
}

/// Accumulator after taking back an update: removing `added`, then adding `removed` back.
pub open spec fn revert(vals: Seq<i16>, w: Seq<i16>, removed: Seq<usize>, added: Seq<usize>) -> Seq<i16> {
    apply_all(apply_all(vals, w, added, false, added.len() as int), w, removed, true, removed.len() as int)
}

/// Side index of the piece on a square (0 white, 1 black).
pub open spec fn side_at(board: BoardState, sq: u8) -> int {
    if board.spec_color_at(sq) == Some(Color::White) { 0 } else { 1 }
}

/// Feature pair of a piece (side, square, role index) seen from the side to move of
/// `board` and from its opponent, each in its own input bucket.
pub open spec fn feature_pair(board: BoardState, side: int, sq: int, piece_type: int) -> (usize, usize) {
    let p = board.turn;
    let ub = spec_get_bucket(board, p);
    let tb = spec_get_bucket(board, p.other());
    (spec_calculate_index(side, sq, piece_type, p, ub.0, ub.1) as usize,
        spec_calculate_index(side, sq, piece_type, p.other(), tb.0, tb.1) as usize)
}

/// Whether a castling move goes towards the h-file.
pub open spec fn castles_kingside(king: u8, rook: u8) -> bool {
    rook % 8 > king % 8
}

/// Features a move removes and adds, in the order the accumulators change.
pub open spec fn move_delta(board: BoardState, mv: ChessMove) -> (Seq<(usize, usize)>, Seq<(usize, usize)>) {
    match mv {
        ChessMove::Normal { from, to, promotion, .. } => {
            let side = side_at(board, from);
            let role = board.spec_role_at(from)->0;
            let moved = seq![feature_pair(board, side, from as int, role_index(role) as int)];
            let removed = match board.spec_role_at(to) {
                Some(cap) => moved.push(feature_pair(board, side_at(board, to), to as int, role_index(cap) as int)),
                None => moved,
            };
            let final_role = match promotion {
                Some(p) => p,
                None => role,
            };
            (removed, seq![feature_pair(board, side, to as int, role_index(final_role) as int)])
        },
        ChessMove::EnPassant { from, to } => {
            let side = side_at(board, from);
            let cap_sq = (from / 8) * 8 + to % 8;
            (seq![feature_pair(board, side, from as int, 0), feature_pair(board, 1 - side, cap_sq, 0)],
                seq![feature_pair(board, side, to as int, 0)])
        },
        ChessMove::Castle { king, rook } => {
            let side = side_at(board, king);
            let king_to = if castles_kingside(king, rook) { king + 2 } else { king - 2 };
            let rook_to = if castles_kingside(king, rook) { king + 1 } else { king - 1 };
            (seq![feature_pair(board, side, king as int, 5), feature_pair(board, side, rook as int, 3)],
                seq![feature_pair(board, side, king_to, 5), feature_pair(board, side, rook_to, 3)])
        },
        ChessMove::Put { .. } => (Seq::empty(), Seq::empty()),
    }
}

/// What `make_move_nnue` needs of a move: its squares are on the board, the moving
/// piece is there, and castling lands on the board.
pub open spec fn nnue_move_ok(board: BoardState, mv: ChessMove) -> bool {
    &&& mv.wf()
    &&& match mv {
        ChessMove::Normal { from, .. } => board.spec_role_at(from) is Some,
        ChessMove::EnPassant { from, .. } => board.spec_role_at(from) is Some,
        ChessMove::Castle { king, rook } => {
            &&& board.spec_role_at(king) is Some
            &&& castles_kingside(king, rook) ==> king + 2 < 64
            &&& !castles_kingside(king, rook) ==> king >= 2
        },
        ChessMove::Put { .. } => true,
    }
}

/// Removes a feature from both accumulators and records it.
fn remove_feature_pair(state: &mut NNUEState, net: &Network, delta: &mut AccumulatorDelta, pair: (usize, usize))
    requires
        net.wf(),
        old(state).wf(),
        pair.0 < NUM_FEATURES,
        pair.1 < NUM_FEATURES,
    ensures
        final(state).wf(),
        final(state).stack == old(state).stack,
        final(state).us.vals@ == apply_all(old(state).us.vals@, net.feature_weights@, seq![pair.0], false, 1),
        final(state).them.vals@ == apply_all(old(state).them.vals@, net.feature_weights@, seq![pair.1], false, 1),
        final(delta).removed@ == old(delta).removed@.push(pair),
        final(delta).added@ == old(delta).added@,
{
    proof {
        assert(apply_all(state.us.vals@, net.feature_weights@, seq![pair.0], false, 0) == state.us.vals@);
        assert(apply_all(state.them.vals@, net.feature_weights@, seq![pair.1], false, 0) == state.them.vals@);
    }
    state.us.remove_feature(pair.0, net);
    state.them.remove_feature(pair.1, net);
    delta.removed.push(pair);
}

/// Adds a feature to both accumulators and records it.
fn add_feature_pair(state: &mut NNUEState, net: &Network, delta: &mut AccumulatorDelta, pair: (usize, usize))
    requires
        net.wf(),
        old(state).wf(),
        pair.0 < NUM_FEATURES,
        pair.1 < NUM_FEATURES,
    ensures
        final(state).wf(),
        final(state).stack == old(state).stack,
        final(state).us.vals@ == apply_all(old(state).us.vals@, net.feature_weights@, seq![pair.0], true, 1),
        final(state).them.vals@ == apply_all(old(state).them.vals@, net.feature_weights@, seq![pair.1], true, 1),
        final(delta).added@ == old(delta).added@.push(pair),
        final(delta).removed@ == old(delta).removed@,
{
    proof {
        assert(apply_all(state.us.vals@, net.feature_weights@, seq![pair.0], true, 0) == state.us.vals@);
        assert(apply_all(state.them.vals@, net.feature_weights@, seq![pair.1], true, 0) == state.them.vals@);
    }
    state.us.add_feature(pair.0, net);
    state.them.add_feature(pair.1, net);
    delta.added.push(pair);
}

/// The feature pair of a piece for the side to move (`persp`) and its opponent.
fn make_pair(side: usize, sq: usize, piece_type: usize, persp: Color, ub: (usize, bool), tb: (usize, bool),
    Ghost(board): Ghost<BoardState>) -> (r: (usize, usize))
    requires
        side <= 1,
        sq < 64,
        piece_type < 6,
        ub.0 < NUM_INPUT_BUCKETS,
        tb.0 < NUM_INPUT_BUCKETS,
        persp == board.turn,
        ub.0 == spec_get_bucket(board, persp).0,
        ub.1 == spec_get_bucket(board, persp).1,
        tb.0 == spec_get_bucket(board, persp.other()).0,
        tb.1 == spec_get_bucket(board, persp.other()).1,
    ensures
        r == feature_pair(board, side as int, sq as int, piece_type as int),
        r.0 < NUM_FEATURES,
        r.1 < NUM_FEATURES,
{
    (calculate_index(side, sq, piece_type, persp, ub.0, ub.1), calculate_index(side, sq, piece_type, persp.other(), tb.0, tb.1))
}

proof fn lemma_apply_one_more(vals: Seq<i16>, w: Seq<i16>, cols: Seq<usize>, c: usize, add: bool)
    ensures
        apply_all(apply_all(vals, w, cols, add, cols.len() as int), w, seq![c], add, 1)
            == apply_all(vals, w, cols.push(c), add, cols.len() as int + 1),
{
    lemma_apply_prefix(vals, w, cols, cols.push(c), add, cols.len() as int);
    assert(apply_all(apply_all(vals, w, cols, add, cols.len() as int), w, seq![c], add, 0)
        == apply_all(vals, w, cols, add, cols.len() as int));
}

proof fn lemma_apply_prefix(vals: Seq<i16>, w: Seq<i16>, a: Seq<usize>, b: Seq<usize>, add: bool, n: int)
    requires
        0 <= n <= a.len(),
        n <= b.len(),
        forall|i: int| 0 <= i < n ==> a[i] == b[i],
    ensures
        apply_all(vals, w, a, add, n) == apply_all(vals, w, b, add, n),
    decreases n,
{
    if n > 0 {
        lemma_apply_prefix(vals, w, a, b, add, n - 1);
    }
}

proof fn lemma_firsts_push(s: Seq<(usize, usize)>, p: (usize, usize))
    ensures
        firsts(s.push(p)) == firsts(s).push(p.0),
        seconds(s.push(p)) == seconds(s).push(p.1),
{
    assert(firsts(s.push(p)) =~= firsts(s).push(p.0));
    assert(seconds(s.push(p)) =~= seconds(s).push(p.1));
}

/// Applies a move's feature changes to the accumulators, records them, and swaps
/// the accumulators for the new side to move. `board` is the position the move is
/// played from; both perspectives keep that position's input buckets.
#[verifier::rlimit(60)]
#[verifier::spinoff_prover]
pub fn make_move_nnue(board: &BoardState, mv: &ChessMove, net: &Network, state: &mut NNUEState)
    requires
        board.wf(),
        net.wf(),
        old(state).wf(),
        nnue_move_ok(*board, *mv),
    ensures
        final(state).wf(),
        final(state).deltas() == old(state).deltas().push(move_delta(*board, *mv)),
        final(state).us.vals@ == update(old(state).them.vals@, net.feature_weights@,
            seconds(move_delta(*board, *mv).0), seconds(move_delta(*board, *mv).1)),
        final(state).them.vals@ == update(old(state).us.vals@, net.feature_weights@,
            firsts(move_delta(*board, *mv).0), firsts(move_delta(*board, *mv).1)),
{
    let ghost us0 = state.us.vals@;
    let ghost them0 = state.them.vals@;
    let ghost deltas0 = state.deltas();
    let ghost w = net.feature_weights@;
    let mut delta = AccumulatorDelta { removed: Vec::new(), added: Vec::new() };
    let perspective = board.turn;
    let ub = get_bucket(board, perspective);
    let tb = get_bucket(board, perspective.other());
    proof {
        assert(firsts(delta.removed@) =~= Seq::<usize>::empty());
        assert(seconds(delta.removed@) =~= Seq::<usize>::empty());
    }
    match *mv {
        ChessMove::Normal { from, to, promotion, .. } => {
            let role = match board.role_at(from) {
                Some(r) => r,
                None => Role::Pawn,
            };
            let side: usize = match board.color_at(from) {
                Some(Color::White) => 0,
                _ => 1,
            };
            let p1 = make_pair(side, from as usize, role_index(role), perspective, ub, tb, Ghost(*board));
            remove_feature_pair(state, net, &mut delta, p1);
            proof {
                lemma_firsts_push(Seq::empty(), p1);
                lemma_apply_one_more(us0, w, Seq::empty(), p1.0, false);
                lemma_apply_one_more(them0, w, Seq::empty(), p1.1, false);
            }
            match board.role_at(to) {
                Some(cap) => {
                    let cap_side: usize = match board.color_at(to) {
                        Some(Color::White) => 0,
                        _ => 1,
                    };
                    let p2 = make_pair(cap_side, to as usize, role_index(cap), perspective, ub, tb, Ghost(*board));
                    let ghost r1 = delta.removed@;
                    remove_feature_pair(state, net, &mut delta, p2);
                    proof {
                        lemma_firsts_push(r1, p2);
                        lemma_apply_one_more(us0, w, firsts(r1), p2.0, false);
                        lemma_apply_one_more(them0, w, seconds(r1), p2.1, false);
                    }
                },
                None => {},
            }
            let final_role = match promotion {
                Some(p) => p,
                None => role,
            };
            let p3 = make_pair(side, to as usize, role_index(final_role), perspective, ub, tb, Ghost(*board));
            let ghost mid_us = state.us.vals@;
            let ghost mid_them = state.them.vals@;
            add_feature_pair(state, net, &mut delta, p3);
            proof {
                lemma_firsts_push(Seq::empty(), p3);
                lemma_apply_one_more(mid_us, w, Seq::empty(), p3.0, true);
                lemma_apply_one_more(mid_them, w, Seq::empty(), p3.1, true);
                assert(delta_view(delta) == move_delta(*board, *mv));
            }
        },
        ChessMove::EnPassant { from, to } => {
            let side: usize = match board.color_at(from) {
                Some(Color::White) => 0,
                _ => 1,
            };
            let cap_sq: u8 = (from / 8) * 8 + to % 8;
            let p1 = make_pair(side, from as usize, 0, perspective, ub, tb, Ghost(*board));
            remove_feature_pair(state, net, &mut delta, p1);
            proof {
                lemma_firsts_push(Seq::empty(), p1);
                lemma_apply_one_more(us0, w, Seq::empty(), p1.0, false);
                lemma_apply_one_more(them0, w, Seq::empty(), p1.1, false);
            }
            let p2 = make_pair(1 - side, cap_sq as usize, 0, perspective, ub, tb, Ghost(*board));
            let ghost r1 = delta.removed@;
            remove_feature_pair(state, net, &mut delta, p2);
            proof {
                lemma_firsts_push(r1, p2);
                lemma_apply_one_more(us0, w, firsts(r1), p2.0, false);
                lemma_apply_one_more(them0, w, seconds(r1), p2.1, false);
            }
            let p3 = make_pair(side, to as usize, 0, perspective, ub, tb, Ghost(*board));
            let ghost mid_us = state.us.vals@;
            let ghost mid_them = state.them.vals@;
            add_feature_pair(state, net, &mut delta, p3);
            proof {
                lemma_firsts_push(Seq::empty(), p3);
                lemma_apply_one_more(mid_us, w, Seq::empty(), p3.0, true);
                lemma_apply_one_more(mid_them, w, Seq::empty(), p3.1, true);
                assert(delta.removed@ =~= seq![p1, p2]);
                assert(delta.added@ =~= seq![p3]);
            }
        },
        ChessMove::Castle { king, rook } => {
            let side: usize = match board.color_at(king) {
                Some(Color::White) => 0,
                _ => 1,
            };
            let kingside = rook % 8 > king % 8;
            let king_to: u8 = if kingside { king + 2 } else { king - 2 };
            let rook_to: u8 = if kingside { king + 1 } else { king - 1 };
            let p1 = make_pair(side, king as usize, 5, perspective, ub, tb, Ghost(*board));
            remove_feature_pair(state, net, &mut delta, p1);
            proof {
                lemma_firsts_push(Seq::empty(), p1);
                lemma_apply_one_more(us0, w, Seq::empty(), p1.0, false);
                lemma_apply_one_more(them0, w, Seq::empty(), p1.1, false);
            }
            let p2 = make_pair(side, rook as usize, 3, perspective, ub, tb, Ghost(*board));
            let ghost r1 = delta.removed@;
            remove_feature_pair(state, net, &mut delta, p2);
            proof {
                lemma_firsts_push(r1, p2);
                lemma_apply_one_more(us0, w, firsts(r1), p2.0, false);
                lemma_apply_one_more(them0, w, seconds(r1), p2.1, false);
            }
            let p3 = make_pair(side, king_to as usize, 5, perspective, ub, tb, Ghost(*board));
            let ghost mid_us = state.us.vals@;
            let ghost mid_them = state.them.vals@;
            add_feature_pair(state, net, &mut delta, p3);
            proof {
                lemma_firsts_push(Seq::empty(), p3);
                lemma_apply_one_more(mid_us, w, Seq::empty(), p3.0, true);
                lemma_apply_one_more(mid_them, w, Seq::empty(), p3.1, true);
            }
            let p4 = make_pair(side, rook_to as usize, 3, perspective, ub, tb, Ghost(*board));
            let ghost a1 = delta.added@;
            add_feature_pair(state, net, &mut delta, p4);
            proof {
                lemma_firsts_push(a1, p4);
                lemma_apply_one_more(mid_us, w, firsts(a1), p4.0, true);
                lemma_apply_one_more(mid_them, w, seconds(a1), p4.1, true);
                assert(delta.removed@ =~= seq![p1, p2]);
                assert(delta.added@ =~= seq![p3, p4]);
            }
        },
        ChessMove::Put { .. } => {
            proof {
                assert(delta.removed@ =~= Seq::<(usize, usize)>::empty());
                assert(firsts(delta.added@) =~= Seq::<usize>::empty());
                assert(seconds(delta.added@) =~= Seq::<usize>::empty());
            }
        },
    }
    let ghost dv = delta_view(delta);
    assert(delta_ok(delta));
    state.stack.push(delta);
    proof {
        assert(state.deltas() =~= deltas0.push(dv));
    }
    std::mem::swap(&mut state.us, &mut state.them);
}

/// Takes back the last recorded move: swaps the accumulators back, then removes
/// what it added and adds back what it removed.
pub fn unmake_move_nnue(net: &Network, state: &mut NNUEState)
    requires
        net.wf(),
        old(state).wf(),
        old(state).stack@.len() > 0,
    ensures
        final(state).wf(),
        final(state).deltas() == old(state).deltas().drop_last(),
        final(state).us.vals@ == revert(old(state).them.vals@, net.feature_weights@,
            firsts(old(state).deltas().last().0), firsts(old(state).deltas().last().1)),
        final(state).them.vals@ == revert(old(state).us.vals@, net.feature_weights@,
            seconds(old(state).deltas().last().0), seconds(old(state).deltas().last().1)),
{
    std::mem::swap(&mut state.us, &mut state.them);
    let ghost deltas0 = state.deltas();
    let ghost last = state.stack@.last();
    let ghost n = state.stack@.len();
    let delta = state.stack.pop().unwrap();
    proof {
        assert(state.deltas() =~= deltas0.drop_last());
        assert(delta == last);
        assert(delta_ok(old(state).stack@[n - 1]));
        assert(forall|i: int| 0 <= i < state.stack@.len() ==> state.stack@[i] == old(state).stack@[i]);
    }
    let ghost w = net.feature_weights@;
    let ghost us0 = state.us.vals@;
    let ghost them0 = state.them.vals@;
    let mut k: usize = 0;
    while k < delta.added.len()
        invariant
            net.wf(),
            state.wf(),
            w == net.feature_weights@,
            state.deltas() == deltas0.drop_last(),
            k <= delta.added@.len(),
            forall|j: int| 0 <= j < delta.added@.len() ==> (#[trigger] delta.added@[j]).0 < NUM_FEATURES && delta.added@[j].1 < NUM_FEATURES,
            state.us.vals@ == apply_all(us0, w, firsts(delta.added@), false, k as int),
            state.them.vals@ == apply_all(them0, w, seconds(delta.added@), false, k as int),
        decreases delta.added@.len() - k,
    {
        let (u, t) = delta.added[k];
        state.us.remove_feature(u, net);
        state.them.remove_feature(t, net);
        k += 1;
    }
    let ghost us1 = state.us.vals@;
    let ghost them1 = state.them.vals@;
    k = 0;
    while k < delta.removed.len()
        invariant
            net.wf(),
            state.wf(),
            w == net.feature_weights@,
            state.deltas() == deltas0.drop_last(),
            k <= delta.removed@.len(),
            forall|j: int| 0 <= j < delta.removed@.len() ==> (#[trigger] delta.removed@[j]).0 < NUM_FEATURES && delta.removed@[j].1 < NUM_FEATURES,
            state.us.vals@ == apply_all(us1, w, firsts(delta.removed@), true, k as int),
            state.them.vals@ == apply_all(them1, w, seconds(delta.removed@), true, k as int),
        decreases delta.removed@.len() - k,
    {
        let (u, t) = delta.removed[k];
        state.us.add_feature(u, net);
        state.them.add_feature(t, net);
        k += 1;
    }
}

/// Making a move and unmaking it gives back the accumulators and the record.
pub proof fn lemma_make_unmake(us: Seq<i16>, them: Seq<i16>, w: Seq<i16>, d: (Seq<(usize, usize)>, Seq<(usize, usize)>))
    ensures
        revert(update(us, w, firsts(d.0), firsts(d.1)), w, firsts(d.0), firsts(d.1)) == us,
        revert(update(them, w, seconds(d.0), seconds(d.1)), w, seconds(d.0), seconds(d.1)) == them,
{
    lemma_update_undo(us, w, firsts(d.0), firsts(d.1));
    lemma_update_undo(them, w, seconds(d.0), seconds(d.1));
}

} // verus!
