//! Alpha-beta search: principal variation search with a transposition table,
//! check extensions, reverse futility, static null move and null move pruning,
//! razoring, futility and late move pruning, singular extensions, late move
//! reductions, and a quiescence search over captures.
//!
//! Scores stay far inside `i32`: a node searched with a window within
//! `window_bound(ply)` returns a score within `result_bound(ply)`. Every search leaves
//! the repetition stack and the accumulators as it found them.

use vstd::prelude::*;
use crate::chess::{BoardState, ChessMove, moves_well_formed, popcount};
use crate::context::{SearchContext, has_origin, repeats_last, window_start};
use crate::eval::{evaluate, spec_mopup};
use crate::network::{Network, spec_evaluate};
use crate::nnue_state::{make_move_nnue, unmake_move_nnue, nnue_move_ok, update,
    lemma_make_unmake, move_delta};
use crate::ordering::{is_sorted_permutation, mover_present};
use crate::params::PARAM_LIMIT;
use crate::position::{Position, spec_legal_moves, spec_is_check, spec_move_to_uci, move_to_uci, spec_play,
    spec_zobrist, spec_insufficient_material};
use crate::pv::PvTable;
use crate::see::see;
use crate::tt::{Bound, TTEntry, encode_move, validate_move, score_from_tt, score_to_tt, spec_score_to_tt,
    spec_store_skipped, spec_decode_move_partial, spec_encode_move};
use crate::types::{DRAW_SCORE, MATE_SCORE, MAX_INF, MIN_INF, div_i32, clamp};
use crate::clock::elapsed_ms;
use crate::flags::{is_set, set_flag, count_up, count_down};

verus! {

/// Magnitude below which every score the search computes stays.
pub const SEARCH_BOUND: i32 = 268435456;

/// Largest depth a node at ply 0 may be searched to, plus three per ply of room for
/// extensions.
pub const DEPTH_LIMIT: usize = 1200;

/// Largest ply the quiescence search reaches: 128 plies of main search plus one
/// capture per piece.
pub const QS_PLY_LIMIT: usize = 192;

/// Bound on the window of a node at `ply`: it grows by one per ply, as windows are
/// negated and narrowed by one.
pub open spec fn window_bound(ply: int) -> int {
    SEARCH_BOUND + ply
}

/// Bound on the score of a node at `ply`.
pub open spec fn result_bound(ply: int) -> int {
    SEARCH_BOUND + 768 - 2 * ply
}

/// Whether a window lies within the bound for `ply`.
pub open spec fn window_ok(alpha: int, beta: int, ply: int) -> bool {
    &&& -window_bound(ply) <= alpha <= window_bound(ply)
    &&& -window_bound(ply) <= beta <= window_bound(ply)
}

/// The first move of a line after a search: unchanged, or a legal move of the position.
pub open spec fn best_move_ok(now: Option<ChessMove>, before: Option<ChessMove>, s: BoardState) -> bool {
    now == before || (now matches Some(m) && spec_legal_moves(s).contains(m))
}

/// The parts of the context a search restores: the repetition stack and the two
/// accumulators with their record of moves.
pub open spec fn restored(a: &SearchContext, b: &SearchContext) -> bool {
    &&& a.repetition_stack@ == b.repetition_stack@
    &&& a.nnue.us.vals@ == b.nnue.us.vals@
    &&& a.nnue.them.vals@ == b.nnue.them.vals@
    &&& a.nnue.deltas() == b.nnue.deltas()
}

/// Parts of the context a search never changes: the settings, the table's
/// generation, and the depth recorded as completed.
pub open spec fn fixed(a: &SearchContext, b: &SearchContext) -> bool {
    &&& a.same_settings(b)
    &&& a.tt.spec_age() == b.tt.spec_age()
    &&& a.stats.completed_depth == b.stats.completed_depth
}

/// The side to move is checkmated.
pub open spec fn is_mate(s: BoardState) -> bool {
    spec_is_check(s) && spec_legal_moves(s).len() == 0
}

/// A position that the rules score as a draw inside the tree: a repetition of an
/// earlier position since the last irreversible move (on the repetition stack
/// `stack`, whose last entry is the position's own hash), a hundred plies or more without
/// a capture or pawn move, stalemate, or insufficient material.
pub open spec fn drawn_by_rule(stack: Seq<u64>, s: BoardState) -> bool {
    ||| (stack.len() > 0 && repeats_last(stack, window_start(stack.len() as int, s.halfmoves as int)))
    ||| s.halfmoves >= 100
    ||| (!spec_is_check(s) && spec_legal_moves(s).len() == 0)
    ||| spec_insufficient_material(s)
}

/// The score stored in the table for a node whose best score is `best_score`, as a
/// bound relative to the window it was searched with.
pub open spec fn bound_of(best_score: int, alpha: int, beta: int) -> Bound {
    if best_score <= alpha {
        Bound::Upper
    } else if best_score >= beta {
        Bound::Lower
    } else {
        Bound::Exact
    }
}

/// The table's cutoff score for a key, if it has one for this depth and window.
pub fn tt_probe(key: u64, ctx: &SearchContext, depth: usize, alpha: i32, beta: i32, ply: usize) -> (r: Option<i32>)
    requires
        ctx.wf(),
        ply <= QS_PLY_LIMIT,
    ensures
        r matches Some(v) ==> ctx.tt.spec_probe(key) matches Some(e) && crate::tt::spec_try_score(e, depth as int,
            alpha as int, beta as int, ply as int) == Some(v as int),
        r is None ==> (ctx.tt.spec_probe(key) matches Some(e) ==> crate::tt::spec_try_score(e, depth as int,
            alpha as int, beta as int, ply as int) is None),
{
    match ctx.tt.probe(key) {
        Some(e) => e.try_score(depth, alpha, beta, ply),
        None => None,
    }
}

/// Stores a node's result: its best score adjusted for mate distance, as an upper
/// bound if it did not exceed `alpha`, a lower bound if it reached `beta`, else exact.
pub fn tt_store(key: u64, ctx: &mut SearchContext, depth: usize, best_score: i32, eval: i32, alpha: i32, beta: i32,
    best_move: Option<ChessMove>, ply: usize)
    requires
        old(ctx).wf(),
        ply <= QS_PLY_LIMIT,
        -result_bound(0) <= best_score <= result_bound(0),
    ensures
        final(ctx).wf(),
        restored(final(ctx), old(ctx)),
        fixed(final(ctx), old(ctx)),
        final(ctx).stack == old(ctx).stack,
        final(ctx).excluded_move == old(ctx).excluded_move,
        final(ctx).stop_seen == old(ctx).stop_seen,
        ({
            let t0 = old(ctx).tt;
            if spec_store_skipped(t0.slots()[t0.spec_index(key)], key, depth as u8, t0.spec_age()) {
                final(ctx).tt.slots() == t0.slots()
            } else {
                final(ctx).tt.spec_probe(key) == Some(TTEntry {
                    key,
                    depth: depth as u8,
                    age: t0.spec_age(),
                    score: spec_score_to_tt(best_score as int, ply as int) as i16 as i32,
                    eval: eval as i16 as i32,
                    bound: bound_of(best_score as int, alpha as int, beta as int),
                    best_move: spec_decode_move_partial(spec_encode_move(best_move)),
                })
            }
        }),
{
    let bound = if best_score <= alpha {
        Bound::Upper
    } else if best_score >= beta {
        Bound::Lower
    } else {
        Bound::Exact
    };
    let s = score_to_tt(best_score, ply);
    let ghost t0 = ctx.tt;
    ctx.tt.store(key, depth, s, eval, bound, best_move);
    proof {
        if !spec_store_skipped(t0.slots()[t0.spec_index(key)], key, depth as u8, t0.spec_age()) {
            crate::tt::lemma_table_store_probe(t0, ctx.tt, key, depth, s, eval, bound, best_move);
        }
    }
}

/// Sets the shared stop flag once the node limit is reached, or once the time limit
/// has passed (checked every 13337 nodes).
fn check_time(ctx: &SearchContext) {
    if ctx.stats.nodes >= ctx.node_limit {
        set_flag(&*ctx.stop, true);
    }
    if ctx.stats.nodes % 13337 == 0 {
        if elapsed_ms(&ctx.start_time) >= ctx.time_limit_ms {
            set_flag(&*ctx.stop, true);
        }
    }
}

/// Whether the search has been told to stop: once it has read the stop flag
/// raised, it answers yes without reading it again.
fn stopped(ctx: &mut SearchContext) -> (r: bool)
    ensures
        old(ctx).stop_seen ==> r,
        *final(ctx) == (SearchContext { stop_seen: r, ..*old(ctx) }),
{
    if !ctx.stop_seen && is_set(&*ctx.stop) {
        ctx.stop_seen = true;
    }
    ctx.stop_seen
}

/// The draws the quiescence search scores: a repetition since the last irreversible
/// move, or a hundred plies or more without a capture or pawn move.
pub open spec fn drawn_in_quiescence(stack: Seq<u64>, s: BoardState) -> bool {
    ||| (stack.len() > 0 && repeats_last(stack, window_start(stack.len() as int, s.halfmoves as int)))
    ||| s.halfmoves >= 100
}

/// Whether `s` has no legal capture.
pub open spec fn no_captures(s: BoardState) -> bool {
    spec_legal_moves(s).filter(|m: ChessMove| m.is_capture()).len() == 0
}

/// Standing pat on `eval` within the window: `beta` when it fails high, else the
/// larger of `eval` and `alpha`.
pub open spec fn stand_pat(eval: int, alpha: int, beta: int) -> int {
    if eval >= beta { beta } else if eval > alpha { eval } else { alpha }
}

/// Static evaluation of `s` with the network and accumulators of `ctx`.
pub open spec fn static_eval(ctx: &SearchContext, s: BoardState) -> int {
    let e = spec_evaluate(ctx.network, ctx.nnue.us.vals@, ctx.nnue.them.vals@, s);
    clamp(e + spec_mopup(s, e), -MATE_SCORE + 1000, MATE_SCORE - 1000)
}

/// Knights, bishops, rooks and queens of the side to move.
pub fn minors_or_majors(board: &BoardState) -> (r: u64)
    ensures
        r == (board.rooks | board.queens | board.knights | board.bishops) & board.color_bb(board.turn),
{
    (board.rooks | board.queens | board.knights | board.bishops) & board.by_color(board.turn)
}

proof fn lemma_param_product(p: int, d: int)
    requires
        -PARAM_LIMIT <= p <= PARAM_LIMIT,
        0 <= d <= DEPTH_LIMIT + 1,
    ensures
        -120100000 <= p * d <= 120100000,
{
    assert(-120100000 <= p * d <= 120100000) by (nonlinear_arith)
        requires
            -100000 <= p <= 100000,
            0 <= d <= 1201,
    ;
}

proof fn lemma_sorted_elements(input: Seq<ChessMove>, out: Seq<ChessMove>, keys: Seq<int>)
    requires
        is_sorted_permutation(input, out, keys),
    ensures
        out.len() == input.len(),
        forall|k: int| 0 <= k < out.len() ==> input.contains(#[trigger] out[k]),
{
    let p = choose|p: Seq<int>| {
        &&& crate::ordering::is_permutation(p, input.len() as int)
        &&& out.len() == input.len()
        &&& forall|k: int| 0 <= k < out.len() ==> #[trigger] out[k] == input[p[k]]
        &&& forall|k: int, l: int| 0 <= k < l < out.len() ==> crate::ordering::before(keys[#[trigger] p[k]], p[k],
            keys[#[trigger] p[l]], p[l])
    };
    assert forall|k: int| 0 <= k < out.len() implies input.contains(#[trigger] out[k]) by {
        assert(out[k] == input[p[k]]);
        assert(0 <= p[k] < input.len());
    }
}

/// Every move of the input of a sorted permutation is in its output.
proof fn lemma_sorted_onto(input: Seq<ChessMove>, out: Seq<ChessMove>, keys: Seq<int>, m: ChessMove)
    requires
        is_sorted_permutation(input, out, keys),
        input.contains(m),
    ensures
        out.contains(m),
{
    let p = choose|p: Seq<int>| {
        &&& crate::ordering::is_permutation(p, input.len() as int)
        &&& out.len() == input.len()
        &&& forall|k: int| 0 <= k < out.len() ==> #[trigger] out[k] == input[p[k]]
        &&& forall|k: int, l: int| 0 <= k < l < out.len() ==> crate::ordering::before(keys[#[trigger] p[k]], p[k],
            keys[#[trigger] p[l]], p[l])
    };
    let n = input.len() as int;
    let j = choose|j: int| 0 <= j < input.len() && input[j] == m;
    assert(p.no_duplicates()) by {
        assert forall|a: int, b: int| 0 <= a < p.len() && 0 <= b < p.len() && a != b implies p[a] != p[b] by {
            if a < b {
                assert(p[a] != p[b]);
            } else {
                assert(p[b] != p[a]);
            }
        }
    }
    p.unique_seq_to_set();
    vstd::set_lib::lemma_int_range(0, n);
    assert(p.to_set().subset_of(vstd::set_lib::set_int_range(0, n))) by {
        assert forall|x: int| p.to_set().contains(x) implies vstd::set_lib::set_int_range(0, n).contains(x) by {
            let k = choose|k: int| 0 <= k < p.len() && p[k] == x;
            assert(0 <= p[k] < n);
        }
    }
    vstd::set_lib::lemma_len_subset(p.to_set(), vstd::set_lib::set_int_range(0, n));
    vstd::set_lib::lemma_subset_equality(p.to_set(), vstd::set_lib::set_int_range(0, n));
    assert(vstd::set_lib::set_int_range(0, n).contains(j));
    assert(p.to_set().contains(j));
    let k = choose|k: int| 0 <= k < p.len() && p[k] == j;
    assert(out[k] == input[p[k]]);
}

/// What the search needs of the moves of a position: well formed, legal, and ready
/// for the accumulators.
pub open spec fn moves_ready(s: BoardState, moves: Seq<ChessMove>) -> bool {
    forall|k: int| 0 <= k < moves.len() ==> {
        &&& spec_legal_moves(s).contains(#[trigger] moves[k])
        &&& mover_present(s, moves[k])
        &&& moves[k] !is Put
        &&& nnue_move_ok(s, moves[k])
    }
}

proof fn lemma_legal_ready(s: BoardState, legal: Seq<ChessMove>, moves: Seq<ChessMove>)
    requires
        moves_well_formed(s, legal),
        forall|k: int| 0 <= k < moves.len() ==> legal.contains(#[trigger] moves[k]),
        forall|k: int| 0 <= k < legal.len() ==> spec_legal_moves(s).contains(#[trigger] legal[k]),
    ensures
        moves_ready(s, moves),
{
    assert forall|k: int| 0 <= k < moves.len() implies {
        &&& spec_legal_moves(s).contains(#[trigger] moves[k])
        &&& mover_present(s, moves[k])
        &&& moves[k] !is Put
        &&& nnue_move_ok(s, moves[k])
    } by {
        let j = choose|j: int| 0 <= j < legal.len() && legal[j] == moves[k];
        assert(legal[j] == moves[k]);
        let m = legal[j];
        assert(m.wf() && m.from() is Some);
    }
}

/// Searches one move from a node: plays it, searches the child with the full window
/// for the first move, else with a null window at a reduced depth and re-searches as
/// needed, and takes the move back. Returns the score from this node's side.
#[verifier::rlimit(80)]
#[verifier::spinoff_prover]
fn search_move(pos: &Position, ctx: &mut SearchContext, mv: ChessMove, depth: usize, ply: usize, alpha: i32, beta: i32,
    moves_searched: i32, is_quiet: bool, see_value: i16, extension: i32, tt_move: Option<ChessMove>, in_check: bool,
    is_pv: bool, local_pv: &mut PvTable) -> (r: i32)
    requires
        old(ctx).wf(),
        pos@.wf(),
        ply <= 126,
        1 <= depth,
        depth + 3 * (127 - ply) <= DEPTH_LIMIT + 1,
        -1 <= extension <= 3,
        1 <= moves_searched <= 1000,
        window_ok(alpha as int, beta as int, ply as int),
        spec_legal_moves(pos@).contains(mv),
        mover_present(pos@, mv),
        nnue_move_ok(pos@, mv),
        old(local_pv).wf(),
    ensures
        final(ctx).wf(),
        restored(final(ctx), old(ctx)),
        fixed(final(ctx), old(ctx)),
        final(local_pv).wf(),
        final(local_pv).spec_len() == old(local_pv).spec_len() || final(local_pv).spec_len() <= 127 - ply,
        -result_bound(ply + 1) <= r <= result_bound(ply + 1),
        is_mate(spec_play(pos@, mv)) ==> r == MATE_SCORE - (ply + 1),
        !is_mate(spec_play(pos@, mv)) && drawn_by_rule(
            old(ctx).repetition_stack@.push(spec_zobrist(spec_play(pos@, mv))),
            spec_play(pos@, mv),
        ) ==> r == DRAW_SCORE,
        old(ctx).stop_seen ==> final(ctx).stop_seen,
        final(ctx).excluded_move@ == old(ctx).excluded_move@,
    decreases 127 - ply, 0int, 0int,
{
    let board = pos.state();
    let child = pos.play(mv);
    let net: &Network = ctx.network;
    let ghost before = *ctx;
    make_move_nnue(board, &mv, net, &mut ctx.nnue);
    let ghost made = ctx.nnue;
    let hash_child = child.zobrist();
    ctx.repetition_stack.push(hash_child);
    ctx.stack.moves.set(ply, Some(mv));
    let full_depth_i: i64 = depth as i64 - 1 + extension as i64;
    let full_depth: usize = if full_depth_i < 0 { 0 } else { full_depth_i as usize };
    let mut score: i32;
    if moves_searched == 1 {
        score = -negamax(&child, ctx, full_depth, ply + 1, -beta, -alpha, true, local_pv);
    } else {
        let mut reduction: i64 = 0;
        if moves_searched >= ctx.params.lmr_min_searches && depth >= ctx.params.lmr_min_depth as usize && is_quiet && !is_pv
            && !in_check {
            let d: usize = if depth < 63 { depth } else { 63 };
            let m: usize = if moves_searched < 63 { moves_searched as usize } else { 63 };
            reduction = ctx.lmr_table[d * 64 + m] as i64;
            if see_value <= 0 {
                reduction = reduction + 1;
            }
            if let Some(ttm) = tt_move {
                if ttm.is_capture() || ttm.is_promotion() {
                    reduction = reduction + 1;
                }
            }
            if child.is_check() {
                reduction = reduction - 1;
            }
            if in_check {
                reduction = reduction - 1;
            }
            if is_pv {
                reduction = reduction - 1;
            }
            let hist = ctx.get_quiet_history_score(board, mv, ply);
            reduction = reduction - div_i32(hist, ctx.params.lmr_history_divisor) as i64;
            let max_red: i64 = depth as i64 - 1;
            reduction = if reduction < 0 { 0 } else if reduction > max_red { max_red } else { reduction };
        }
        let reduced_i: i64 = depth as i64 - 1 - reduction + extension as i64;
        let reduced: usize = if reduced_i < 0 { 0 } else { reduced_i as usize };
        score = -negamax(&child, ctx, reduced, ply + 1, -alpha - 1, -alpha, true, local_pv);
        if score > alpha && reduction > 0 {
            score = -negamax(&child, ctx, full_depth, ply + 1, -alpha - 1, -alpha, true, local_pv);
        }
        if score > alpha && score < beta {
            score = -negamax(&child, ctx, full_depth, ply + 1, -beta, -alpha, true, local_pv);
        }
    }
    ctx.stack.moves.set(ply, None);
    ctx.repetition_stack.pop();
    assert(ctx.nnue.deltas().len() == ctx.nnue.stack@.len());
    unmake_move_nnue(net, &mut ctx.nnue);
    proof {
        lemma_make_unmake(before.nnue.us.vals@, before.nnue.them.vals@, net.feature_weights@, move_delta(*board, mv));
        assert(before.repetition_stack@.push(hash_child).drop_last() =~= before.repetition_stack@);
        assert(before.nnue.deltas().push(move_delta(*board, mv)).drop_last() =~= before.nnue.deltas());
    }
    score
}

/// Null move search of a node: with the side to move passing, searches the node at a
/// reduced depth with a null window at `beta`. Gives the score that cuts the node off,
/// if any: `beta` when that search fails high without a mate score, a draw when the
/// turn cannot pass or the search was stopped.
#[verifier::spinoff_prover]
fn null_move_search(pos: &Position, ctx: &mut SearchContext, d: usize, ply: usize, beta: i32, improving: bool)
    -> (r: Option<i32>)
    requires
        old(ctx).wf(),
        pos@.wf(),
        ply <= 126,
        1 <= d <= DEPTH_LIMIT + 1,
        -window_bound(ply as int) <= beta <= window_bound(ply as int),
    ensures
        final(ctx).wf(),
        restored(final(ctx), old(ctx)),
        fixed(final(ctx), old(ctx)),
        final(ctx).excluded_move@ == old(ctx).excluded_move@,
        old(ctx).stop_seen ==> final(ctx).stop_seen,
        r matches Some(v) ==> -result_bound(ply as int) <= v <= result_bound(ply as int),
    decreases 127 - ply, 0int, 0int,
{
    let ghost start = *ctx;
    let base_red: usize = ctx.params.nmp_base_reduction as usize + d / (ctx.params.nmp_reduction_scaling as usize);
    let mut reduction: usize = if base_red < d { base_red } else { d };
    if improving {
        reduction = reduction + 2;
    }
    reduction = if reduction < 1 { 1 } else if reduction > d { d } else { reduction };
    std::mem::swap(&mut ctx.nnue.us, &mut ctx.nnue.them);
    let child = match pos.swap_turn() {
        Some(c) => c,
        None => {
            std::mem::swap(&mut ctx.nnue.us, &mut ctx.nnue.them);
            return Some(DRAW_SCORE);
        },
    };
    let hash_child = child.zobrist();
    ctx.repetition_stack.push(hash_child);
    let mut null_pv = PvTable::new();
    let ghost before_null = *ctx;
    let child_score = negamax(&child, ctx, d - reduction, ply + 1, -beta, -beta + 1, false, &mut null_pv);
    let score = -child_score;
    std::mem::swap(&mut ctx.nnue.us, &mut ctx.nnue.them);
    ctx.repetition_stack.pop();
    proof {
        assert(before_null.repetition_stack@.drop_last() =~= start.repetition_stack@);
        assert(restored(ctx, &start));
    }
    if stopped(ctx) {
        return Some(DRAW_SCORE);
    }
    if score >= beta && -MATE_SCORE < score && score < MATE_SCORE {
        return Some(beta);
    }
    None
}

/// Rewards the move that caused a cutoff at `ply` and penalises the moves searched
/// before it: a quiet move becomes the first killer and gets its quiet and
/// continuation history bonuses, a capture its capture history bonus.
fn record_cutoff(ctx: &mut SearchContext, board: &BoardState, mv: ChessMove, d: usize, ply: usize, is_capture: bool,
    quiets: &[ChessMove], tacticals: &[ChessMove])
    requires
        old(ctx).wf(),
        ply <= 126,
        d <= DEPTH_LIMIT + 1,
        has_origin(mv),
        board.spec_role_at(mv.from()->0) is Some,
        forall|k: int| 0 <= k < quiets@.len() ==> has_origin(#[trigger] quiets@[k]),
        forall|k: int| 0 <= k < tacticals@.len() ==> has_origin(#[trigger] tacticals@[k])
            && board.spec_role_at(tacticals@[k].from()->0) is Some,
    ensures
        final(ctx).wf(),
        restored(final(ctx), old(ctx)),
        fixed(final(ctx), old(ctx)),
        final(ctx).excluded_move@ == old(ctx).excluded_move@,
        final(ctx).stop_seen == old(ctx).stop_seen,
{
    proof {
        lemma_param_product(ctx.params.cont_hist_scaling as int, d as int);
    }
    let bonus: i32 = ctx.params.cont_hist_scaling * d as i32 - ctx.params.cont_hist_base;
    if !is_capture {
        ctx.store_killer(ply, mv);
        ctx.update_quiet_history(board.turn.repr(), mv, bonus, quiets);
        ctx.update_continuation_history(ply, mv, bonus, quiets);
    } else {
        ctx.update_capture_history(board, mv, bonus, tacticals);
    }
}

/// Singular search of a node: searches it to `se_depth` without `mv`, with a null
/// window just below `se_beta`, and gives back the score.
#[verifier::spinoff_prover]
fn singular_search(pos: &Position, ctx: &mut SearchContext, mv: ChessMove, se_depth: usize, ply: usize, se_beta: i32)
    -> (r: i32)
    requires
        old(ctx).wf(),
        pos@.wf(),
        ply <= 126,
        mv.wf(),
        old(ctx).excluded_move@[ply as int] is None,
        -MATE_SCORE <= se_beta <= 200000000,
    ensures
        final(ctx).wf(),
        restored(final(ctx), old(ctx)),
        fixed(final(ctx), old(ctx)),
        final(ctx).excluded_move@ == old(ctx).excluded_move@,
        old(ctx).stop_seen ==> final(ctx).stop_seen,
        -result_bound(ply as int) <= r <= result_bound(ply as int),
    decreases 127 - ply, se_depth + 1, 2int,
{
    let mut se_pv = PvTable::new();
    let ghost start = *ctx;
    ctx.excluded_move.set(ply, Some(mv));
    let se_score = negamax(pos, ctx, se_depth, ply, se_beta - 1, se_beta, false, &mut se_pv);
    ctx.excluded_move.set(ply, None);
    assert(ctx.excluded_move@ =~= start.excluded_move@);
    se_score
}

/// Whether some legal move of `s` checkmates.
pub open spec fn has_mate_in_one(s: BoardState) -> bool {
    exists|m: ChessMove| spec_legal_moves(s).contains(m) && is_mate(spec_play(s, m))
}

/// A node whose every legal move `negamax` searches: a window wider than one (a PV
/// node, where no move is pruned), below the last ply, a search not yet stopped, no
/// excluded move, and below the root no table entry (no table cutoff, no singular
/// search).
pub open spec fn full_search_node(ctx: &SearchContext, s: BoardState, ply: int, alpha: int, beta: int) -> bool {
    &&& beta - alpha > 1
    &&& ply <= 126
    &&& !ctx.stop_seen
    &&& ctx.excluded_move@[ply] is None
    &&& (ply == 0 || ctx.tt.spec_probe(spec_zobrist(s)) is None)
}

/// A node that `negamax` hands straight to the quiescence search and that the
/// quiescence search then scores by standing pat and its captures: depth 0, the side
/// to move not in check, not mated, no draw by rule (nor the repetition and fifty-move
/// draws of the quiescence search), no table entry for the position, a non-empty
/// window, and a search not yet stopped.
pub open spec fn quiet_leaf(ctx: &SearchContext, s: BoardState, depth: int, ply: int, alpha: int, beta: int) -> bool {
    &&& depth == 0
    &&& !spec_is_check(s)
    &&& !is_mate(s)
    &&& !(ply > 0 && drawn_by_rule(ctx.repetition_stack@, s))
    &&& !drawn_in_quiescence(ctx.repetition_stack@, s)
    &&& ctx.tt.spec_probe(spec_zobrist(s)) is None
    &&& alpha < beta
    &&& !ctx.stop_seen
}

/// The table's cutoff score for a node: the stored entry's score when it is deep
/// enough and decisive for the window (see `spec_try_score`).
pub open spec fn table_cut(ctx: &SearchContext, s: BoardState, depth: int, alpha: int, beta: int, ply: int) -> Option<int> {
    match ctx.tt.spec_probe(spec_zobrist(s)) {
        Some(e) => crate::tt::spec_try_score(e, depth, alpha, beta, ply),
        None => None,
    }
}

/// Depth a node at `ply` asked for `depth` is searched to: the depth capped to leave
/// three plies of extension room per ply below `MAX_PLY - 1`, plus one in check when
/// that leaves at most three and the node is not among the last plies.
pub open spec fn node_depth(depth: int, ply: int, in_check: bool) -> int {
    let room = DEPTH_LIMIT - 3 * (127 - ply);
    let capped = if depth > room { room } else { depth };
    if in_check && ply < 126 && capped <= 2 { capped + 1 } else { capped }
}

/// The depth a node at `ply` is searched to: `depth`, capped so that three plies of
/// extension room per ply below `MAX_PLY - 1` stay within `DEPTH_LIMIT`.
fn cap_depth(depth: usize, ply: usize) -> (r: usize)
    requires
        ply <= 127,
    ensures
        r <= depth,
        depth >= 1 ==> r >= 1,
        r + 3 * (127 - ply) <= DEPTH_LIMIT,
        depth + 3 * (127 - ply) <= DEPTH_LIMIT ==> r == depth,
        r == node_depth(depth as int, ply as int, false),
{
    let room: usize = DEPTH_LIMIT - 3 * (127 - ply);
    if depth > room { room } else { depth }
}

/// Alpha-beta search of a node to `requested_depth` at `ply` with window `(alpha, beta)`,
/// filling `pv` with the best line found when the score lands inside the window.
/// The depth is capped at `DEPTH_LIMIT` less three plies of extension room per ply
/// left below `MAX_PLY - 1`; a node at that last ply answers its static evaluation.
/// A mated node scores the mate, a node drawn by rule (below the root) or searched
/// once the stop has been seen scores a draw, and those leave the line as it was; so
/// does a node that fails low. A quiet leaf scores within the window and no lower
/// than its static evaluation unless it fails high.
#[verifier::rlimit(100)]
#[verifier::spinoff_prover]
pub fn negamax(pos: &Position, ctx: &mut SearchContext, requested_depth: usize, ply: usize, alpha: i32, beta: i32, do_null: bool,
    pv: &mut PvTable) -> (r: i32)
    requires
        old(ctx).wf(),
        pos@.wf(),
        ply <= 127,
        window_ok(alpha as int, beta as int, ply as int),
        old(pv).wf(),
    ensures
        final(ctx).wf(),
        restored(final(ctx), old(ctx)),
        fixed(final(ctx), old(ctx)),
        final(pv).wf(),
        final(pv).spec_len() == old(pv).spec_len() || final(pv).spec_len() <= 128 - ply,
        best_move_ok(final(pv).slots()[0], old(pv).slots()[0], pos@),
        -result_bound(ply as int) <= r <= result_bound(ply as int),
        is_mate(pos@) ==> r == -MATE_SCORE + ply,
        !is_mate(pos@) && ply > 0 && drawn_by_rule(old(ctx).repetition_stack@, pos@) ==> r == DRAW_SCORE,
        !is_mate(pos@) && !(ply > 0 && drawn_by_rule(old(ctx).repetition_stack@, pos@)) && old(ctx).stop_seen
            ==> r == DRAW_SCORE,
        is_mate(pos@) || (ply > 0 && drawn_by_rule(old(ctx).repetition_stack@, pos@)) || old(ctx).stop_seen
            ==> *final(pv) == *old(pv),
        old(ctx).stop_seen ==> final(ctx).stop_seen,
        final(ctx).excluded_move@ == old(ctx).excluded_move@,
        !final(ctx).stop_seen && r <= alpha ==> *final(pv) == *old(pv),
        ply == 0 && requested_depth >= 1 && !is_mate(pos@) && !final(ctx).stop_seen && alpha < r < beta
            && r != MIN_INF ==> final(pv).slots()[0] is Some,
        quiet_leaf(old(ctx), pos@, requested_depth as int, ply as int, alpha as int, beta as int) && !final(ctx).stop_seen
            ==> alpha <= r <= beta && (r >= static_eval(old(ctx), pos@) || r == beta),
        quiet_leaf(old(ctx), pos@, requested_depth as int, ply as int, alpha as int, beta as int) && no_captures(pos@)
            && !final(ctx).stop_seen ==> r == stand_pat(static_eval(old(ctx), pos@), alpha as int, beta as int),
        requested_depth >= 1 && full_search_node(old(ctx), pos@, ply as int, alpha as int, beta as int)
            && !(ply > 0 && drawn_by_rule(old(ctx).repetition_stack@, pos@)) && has_mate_in_one(pos@)
            && !final(ctx).stop_seen ==> r >= MATE_SCORE - (ply + 1) || r >= beta,
        ply > 0 && requested_depth >= 1 && !is_mate(pos@) && !drawn_by_rule(old(ctx).repetition_stack@, pos@)
            && !final(ctx).stop_seen && old(ctx).excluded_move@[ply as int] is None
            && table_cut(old(ctx), pos@, node_depth(requested_depth as int, ply as int, spec_is_check(pos@)),
                alpha as int, beta as int, ply as int) is Some
            ==> r == table_cut(old(ctx), pos@, node_depth(requested_depth as int, ply as int, spec_is_check(pos@)),
                alpha as int, beta as int, ply as int)->0,
    decreases 127 - ply, requested_depth + 1, 1int,
{
    let depth: usize = cap_depth(requested_depth, ply);
    let board = pos.state();
    count_up(&*ctx.node_count);
    ctx.stats.nodes = ctx.stats.nodes.wrapping_add(1);
    if (ply as u32) > ctx.stats.seldepth {
        ctx.stats.seldepth = ply as u32;
    }
    ctx.stats.depth_sum = ctx.stats.depth_sum.wrapping_add(ply as u64);
    ctx.stats.depth_samples = ctx.stats.depth_samples.wrapping_add(1);

    let is_root = ply == 0;
    let in_check = pos.is_check();
    let mut d: usize = depth;

    if ply > 0 {
        let prev = ctx.stack.double_exts[ply - 1];
        ctx.stack.double_exts.set(ply, prev);
    }

    check_time(ctx);

    if pos.is_checkmate() {
        return -MATE_SCORE + ply as i32;
    }
    if (ctx.is_threefold(board) || ctx.is_50_moves(board) || pos.is_stalemate() || pos.is_insufficient_material()) && !is_root {
        return DRAW_SCORE;
    }
    if in_check && ply < 126 && d <= 2 {
        d = d + 1;
    }
    if stopped(ctx) {
        return DRAW_SCORE;
    }
    search_node(pos, ctx, requested_depth, depth, d, ply, alpha, beta, do_null, pv)
}

/// The search of a node past its mate, draw and stop checks, to depth `d` (the
/// capped `depth`, extended by one in check): quiescence at depth 0, the table,
/// pruning before the moves, then the moves in order.
#[verifier::rlimit(100)]
#[verifier::spinoff_prover]
fn search_node(pos: &Position, ctx: &mut SearchContext, requested_depth: usize, depth: usize, d0: usize, ply: usize,
    alpha0: i32, beta: i32, do_null: bool, pv: &mut PvTable) -> (r: i32)
    requires
        old(ctx).wf(),
        pos@.wf(),
        ply <= 127,
        window_ok(alpha0 as int, beta as int, ply as int),
        old(pv).wf(),
        depth <= requested_depth,
        depth + 3 * (127 - ply) <= DEPTH_LIMIT,
        d0 <= depth + 1,
        d0 == depth + 1 ==> ply < 126,
        !is_mate(pos@),
        ply == 0 || !drawn_by_rule(old(ctx).repetition_stack@, pos@),
        !old(ctx).stop_seen,
    ensures
        final(ctx).wf(),
        restored(final(ctx), old(ctx)),
        fixed(final(ctx), old(ctx)),
        final(pv).wf(),
        final(pv).spec_len() == old(pv).spec_len() || final(pv).spec_len() <= 128 - ply,
        best_move_ok(final(pv).slots()[0], old(pv).slots()[0], pos@),
        -result_bound(ply as int) <= r <= result_bound(ply as int),
        final(ctx).excluded_move@ == old(ctx).excluded_move@,
        !final(ctx).stop_seen && r <= alpha0 ==> *final(pv) == *old(pv),
        ply == 0 && d0 >= 1 && !final(ctx).stop_seen && alpha0 < r < beta && r != MIN_INF
            ==> final(pv).slots()[0] is Some,
        d0 == 0 && !final(ctx).stop_seen && !drawn_in_quiescence(old(ctx).repetition_stack@, pos@)
            && old(ctx).tt.spec_probe(spec_zobrist(pos@)) is None && alpha0 < beta
            ==> alpha0 <= r <= beta && (r >= static_eval(old(ctx), pos@) || r == beta),
        d0 == 0 && !final(ctx).stop_seen && !drawn_in_quiescence(old(ctx).repetition_stack@, pos@)
            && old(ctx).tt.spec_probe(spec_zobrist(pos@)) is None && no_captures(pos@)
            ==> r == stand_pat(static_eval(old(ctx), pos@), alpha0 as int, beta as int),
        d0 >= 1 && full_search_node(old(ctx), pos@, ply as int, alpha0 as int, beta as int) && has_mate_in_one(pos@)
            && !final(ctx).stop_seen ==> r >= MATE_SCORE - (ply + 1) || r >= beta,
        d0 >= 1 && ply > 0 && old(ctx).excluded_move@[ply as int] is None
            && table_cut(old(ctx), pos@, d0 as int, alpha0 as int, beta as int, ply as int) is Some
            ==> r == table_cut(old(ctx), pos@, d0 as int, alpha0 as int, beta as int, ply as int)->0,
    decreases 127 - ply, requested_depth + 1, 0int,
{
    let ghost start = *ctx;
    let board = pos.state();
    let is_root = ply == 0;
    let in_check = pos.is_check();
    let is_pv = beta - alpha0 > 1;
    let is_excluded = ctx.excluded_move[ply].is_some();
    let mut alpha = alpha0;
    let alpha_at_entry = alpha;
    let mut best_score: i32 = MIN_INF;
    let mut best_move: Option<ChessMove> = None;
    let mut d: usize = d0;
    if d == 0 {
        count_down(&*ctx.node_count);
        ctx.stats.nodes = ctx.stats.nodes.wrapping_sub(1);
        assert(ply + popcount(board.white | board.black) <= QS_PLY_LIMIT);
        return quiescence(pos, ctx, alpha, beta, ply);
    }

    let hash = pos.zobrist();

    // Transposition table probe.
    let tt_entry: Option<TTEntry> = if !is_excluded { ctx.tt.probe(hash) } else { None };
    if !is_root && !is_excluded {
        if let Some(e) = tt_entry {
            if let Some(s) = e.try_score(d, alpha, beta, ply) {
                return s;
            }
        }
    }

    let static_eval: i32 = if is_excluded {
        ctx.stack.evals[ply]
    } else if let Some(e) = tt_entry {
        e.eval
    } else {
        evaluate(board, ctx.network, &ctx.nnue.us, &ctx.nnue.them)
    };
    ctx.stack.evals.set(ply, static_eval);

    if ply > 126 {
        return static_eval;
    }

    ctx.clear_killers_at(ply + 1);

    let do_pruning = minors_or_majors(board) != 0 && !is_excluded;
    let improving = ctx.is_improving(ply);
    let mut can_futility_prune = false;
    let d64: i64 = d as i64;
    let se64: i64 = static_eval as i64;
    proof {
        lemma_param_product(ctx.params.rfp_scaling as int, d64 as int);
        lemma_param_product(ctx.params.snmp_scaling as int, d64 as int);
        lemma_param_product(ctx.params.nmp_scaling as int, d64 as int);
        lemma_param_product(ctx.params.raz_thr as int, d64 as int);
        lemma_param_product(ctx.params.fp_scaling as int, d64 as int);
    }

    // Reverse futility pruning.
    let futility: i64 = ctx.params.rfp_scaling as i64 * d64 + ctx.params.rfp_improving_scaling as i64 * (if improving { 0 } else { 1 });
    if do_pruning && !is_pv && !in_check && d <= ctx.params.rfp_max_depth as usize && !is_root && se64 - futility >= beta as i64 {
        return (static_eval + beta) / 2;
    }

    // Static null move pruning.
    if do_pruning && !in_check && !is_pv && -MATE_SCORE < beta && beta < MATE_SCORE {
        let score_margin: i64 = ctx.params.snmp_scaling as i64 * d64;
        if se64 - score_margin >= beta as i64 {
            return (se64 - score_margin) as i32;
        }
    }

    // Null move pruning.
    let nmp_margin: i64 = -(ctx.params.nmp_margin as i64) + ctx.params.nmp_scaling as i64 * d64
        + ctx.params.nmp_improving_scaling as i64 * (if improving { 1 } else { 0 });
    if do_pruning && !in_check && !is_pv && !is_root && se64 + nmp_margin >= beta as i64 && do_null
        && minors_or_majors(board) != 0 && d >= ctx.params.nmp_min_depth as usize {
        if let Some(v) = null_move_search(pos, ctx, d, ply, beta, improving) {
            return v;
        }
    }

    // Razoring.
    if do_pruning && !in_check && !is_pv && d <= ctx.params.raz_max_depth as usize
        && se64 + ctx.params.raz_thr as i64 * d64 < alpha as i64 {
        let razor_score = quiescence(pos, ctx, alpha, beta, ply);
        if razor_score <= alpha {
            return razor_score;
        }
    }

    // Futility pruning, decided once for the node.
    if d <= ctx.params.fp_max_depth as usize && !is_pv && !in_check && -MATE_SCORE < alpha && alpha < MATE_SCORE
        && -MATE_SCORE < beta && beta < MATE_SCORE && !is_excluded {
        let margin: i64 = ctx.params.fp_base as i64 + ctx.params.fp_scaling as i64 * d64
            + ctx.params.fp_improving_margin as i64 * (if improving { 1 } else { 0 });
        can_futility_prune = se64 + margin <= alpha as i64;
    }

    let mut moves = pos.legal_moves();
    let ghost legal = moves@;

    // The table's move, recovered among the legal moves.
    let tt_move: Option<ChessMove> = match tt_entry {
        Some(e) => {
            let encoded = encode_move(e.best_move);
            if encoded == 0 { None } else { validate_move(encoded, moves.as_slice()) }
        },
        None => None,
    };

    // Internal iterative reduction.
    if tt_move.is_none() && d >= ctx.params.iir_min_depth as usize {
        d = d - 1;
    }

    // Singular extension candidate: the table's move with a deep enough lower bound.
    let mut se_info: Option<(ChessMove, i32)> = None;
    if !is_root && !is_excluded && d >= ctx.params.se_min_depth as usize {
        if let Some(tt_mv) = tt_move {
            if let Some(entry) = tt_entry {
                let tt_depth_ok = entry.depth as usize + ctx.params.se_depth_ok as usize >= d;
                let tt_score = score_from_tt(entry.score, ply);
                let not_mate = -(MATE_SCORE - 100) < tt_score && tt_score < MATE_SCORE - 100;
                let is_lower_bound = match entry.bound {
                    Bound::Lower => true,
                    Bound::Exact => true,
                    Bound::Upper => false,
                };
                if tt_depth_ok && not_mate && is_lower_bound {
                    se_info = Some((tt_mv, tt_score));
                }
            }
        }
    }

    let dl: i64 = d as i64;
    let mut moves_searched: i32 = 0;
    let mut local_pv = PvTable::new();
    let mut quiets_searched: Vec<ChessMove> = Vec::new();
    let mut tacticals_searched: Vec<ChessMove> = Vec::new();

    let killers = ctx.killers_at(ply);
    proof {
        assert forall|k: int| 0 <= k < moves@.len() implies mover_present(pos@, #[trigger] moves@[k]) && moves@[k] !is Put by {
            assert(moves@[k].wf() && moves@[k].from() is Some);
        }
    }
    ctx.ordering.order_moves(pos, &*ctx, None, tt_move, &killers, ply, &mut moves);
    proof {
        lemma_sorted_elements(legal, moves@, choose|ks: Seq<int>| is_sorted_permutation(legal, moves@, ks));
    }

    let n = moves.len();
    let mut i: usize = 0;
    let ghost all_searched = full_search_node(&start, pos@, ply as int, alpha0 as int, beta as int);
    let ghost mate_score = MATE_SCORE - (ply + 1);
    while i < n
        invariant
            n == moves@.len(),
            n <= 256,
            is_pv == (beta - alpha0 > 1),
            all_searched == full_search_node(&start, pos@, ply as int, alpha0 as int, beta as int),
            !(ply > 0 && start.excluded_move@[ply as int] is None
                && table_cut(&start, pos@, d0 as int, alpha0 as int, beta as int, ply as int) is Some),
            is_pv ==> !can_futility_prune,
            all_searched ==> se_info is None && is_pv && !is_excluded,
            all_searched ==> forall|k: int| 0 <= k < i ==> (is_mate(spec_play(pos@, #[trigger] moves@[k]))
                ==> best_score >= mate_score),
            mate_score == MATE_SCORE - (ply + 1),
            is_sorted_permutation(legal, moves@, choose|ks: Seq<int>| is_sorted_permutation(legal, moves@, ks)),
            i <= n,
            ctx.wf(),
            restored(ctx, &start),
            fixed(ctx, &start),
            start == *old(ctx),
            !start.stop_seen,
            ctx.excluded_move@ == start.excluded_move@,
            alpha >= alpha_at_entry,
            alpha_at_entry == alpha0,
            d0 != 0,
            *pv == *old(pv) || (best_score > alpha_at_entry && alpha_at_entry < beta),
            best_move is None ==> best_score == MIN_INF,
            best_move is Some && best_score > alpha_at_entry && best_score < beta ==> alpha > alpha_at_entry,
            alpha > alpha_at_entry ==> pv.slots()[0] is Some,
            is_excluded == (start.excluded_move@[ply as int] is Some),
            se_info is Some ==> !is_excluded,
            !is_mate(pos@),
            ply == 0 || !drawn_by_rule(start.repetition_stack@, pos@),
            dl == d as i64,
            d <= depth + 1,
            depth <= requested_depth,
            se_info matches Some((_, t)) ==> d >= 2 && -32768 <= t <= 32767,
            pos@.wf(),
            *board == pos@,
            1 <= d,
            d + 3 * (127 - ply) <= DEPTH_LIMIT + 1,
            ply <= 126,
            moves_searched <= i,
            moves_searched >= 0,
            -window_bound(ply as int) <= alpha <= window_bound(ply as int),
            -window_bound(ply as int) <= beta <= window_bound(ply as int),
            -result_bound(ply as int) <= best_score <= result_bound(ply as int),
            local_pv.wf(),
            pv.wf(),
            pv.spec_len() == old(pv).spec_len() || pv.spec_len() <= 128 - ply,
            best_move_ok(pv.slots()[0], old(pv).slots()[0], pos@),
            forall|k: int| 0 <= k < quiets_searched@.len() ==> has_origin(#[trigger] quiets_searched@[k]),
            forall|k: int| 0 <= k < tacticals_searched@.len() ==> has_origin(#[trigger] tacticals_searched@[k])
                && pos@.spec_role_at(tacticals_searched@[k].from()->0) is Some,
            forall|k: int| 0 <= k < moves@.len() ==> legal.contains(#[trigger] moves@[k]),
            moves_well_formed(pos@, legal),
            legal == spec_legal_moves(pos@),
        ensures
            all_searched ==> (i == n || best_score >= beta),
        decreases n - i,
    {
        let mv = moves[i];
        i += 1;
        proof {
            lemma_legal_ready(pos@, legal, moves@);
            assert(spec_legal_moves(pos@).contains(moves@[i - 1]));
        }
        if ctx.excluded_move[ply] == Some(mv) {
            continue;
        }
        let see_value = see(pos, mv);
        local_pv.clear();
        let is_capture = mv.is_capture();
        let is_quiet = !is_capture && !mv.is_promotion();
        moves_searched = moves_searched + 1;
        if is_quiet {
            quiets_searched.push(mv);
        }
        if !is_quiet {
            tacticals_searched.push(mv);
        }

        // Late move pruning.
        proof {
            let lb = ctx.params.lmp_lin_scaling as int;
            let qb = ctx.params.lmp_quad_scaling as int;
            assert(-1200 * 100000 <= dl * lb <= 1200 * 100000) by (nonlinear_arith)
                requires
                    0 <= dl <= 1200,
                    -100000 <= lb <= 100000,
            ;
            assert(0 <= dl * dl <= 1200 * 1200) by (nonlinear_arith)
                requires
                    0 <= dl <= 1200,
            ;
            assert(-1440000 * 100000 <= dl * dl * qb <= 1440000 * 100000) by (nonlinear_arith)
                requires
                    0 <= dl * dl <= 1440000,
                    -100000 <= qb <= 100000,
            ;
        }
        let lmp_moves: i64 = ctx.params.lmp_base as i64 + dl * ctx.params.lmp_lin_scaling as i64
            + dl * dl * ctx.params.lmp_quad_scaling as i64;
        if d <= ctx.params.lmp_max_depth as usize && !is_pv && !in_check && moves_searched as i64 > lmp_moves && is_quiet {
            if see_value <= 0 {
                continue;
            }
        }

        // Futility pruning of late quiet moves.
        if can_futility_prune && moves_searched > ctx.params.fp_min_moves_searched && is_quiet {
            continue;
        }

        // Hanging piece pruning: bad captures and quiet moves that lose material.
        proof {
            lemma_param_product(ctx.params.hpp_tactical_scaling as int, dl as int);
            lemma_param_product(ctx.params.se_scaling as int, dl as int);
            lemma_param_product(ctx.params.cont_hist_scaling as int, dl as int);
        }
        if d <= ctx.params.hpp_max_depth as usize && !is_pv && !is_root && !in_check {
            let threshold: i64 = if is_quiet { 0 } else { ctx.params.hpp_tactical_scaling as i64 * dl };
            if (see_value as i64) < threshold {
                continue;
            }
        }

        // Singular extension.
        let mut extension: i32 = 0;
        if let Some((se_mv, tt_score)) = se_info {
            if se_mv == mv {
                let se_b: i64 = tt_score as i64 - ctx.params.se_scaling as i64 * dl;
                let se_beta: i32 = if se_b < -(MATE_SCORE as i64) { -MATE_SCORE } else { se_b as i32 };
                let se_depth: usize = (d - 1) / 2;
                assert(se_depth < depth);
                let se_score = singular_search(pos, ctx, mv, se_depth, ply, se_beta);
                if stopped(ctx) {
                    return DRAW_SCORE;
                }
                if se_score < se_beta {
                    ctx.stats.singular_extensions = ctx.stats.singular_extensions.wrapping_add(1);
                    extension = extension + 1;
                    if !is_pv && se_score as i64 + (ctx.params.se_dext_margin as i64) < se_beta as i64
                        && ctx.stack.double_exts[ply] <= ctx.params.se_max_nr_dext {
                        extension = extension + 1;
                        let de = ctx.stack.double_exts[ply];
                        ctx.stack.double_exts.set(ply, de + 1);
                        if is_quiet && se_score as i64 + (ctx.params.se_text_margin as i64) < se_beta as i64 {
                            extension = extension + 1;
                        }
                    }
                } else if se_beta >= beta {
                    return se_beta;
                } else if tt_score >= beta {
                    extension = extension - 1;
                }
            }
        }

        let score = search_move(pos, ctx, mv, d, ply, alpha, beta, moves_searched, is_quiet, see_value, extension,
            tt_move, in_check, is_pv, &mut local_pv);

        if score > best_score {
            best_score = score;
            best_move = Some(mv);
        }
        if score >= beta {
            record_cutoff(ctx, board, mv, d, ply, is_capture, quiets_searched.as_slice(), tacticals_searched.as_slice());
            break;
        }
        if score > alpha {
            alpha = score;
            pv.add_child_to_parent(mv, &local_pv);
            assert(pv.spec_line().len() == pv.spec_len());
            assert(local_pv.spec_line().len() == local_pv.spec_len());
        }
    }

    proof {
        if all_searched && has_mate_in_one(pos@) && best_score < beta {
            let m = choose|m: ChessMove| spec_legal_moves(pos@).contains(m) && is_mate(spec_play(pos@, m));
            lemma_sorted_onto(legal, moves@, choose|ks: Seq<int>| is_sorted_permutation(legal, moves@, ks), m);
            let k = choose|k: int| 0 <= k < moves@.len() && moves@[k] == m;
            assert(is_mate(spec_play(pos@, moves@[k])));
        }
    }
    if !stopped(ctx) && !is_excluded {
        tt_store(hash, ctx, d, best_score, static_eval, alpha_at_entry, beta, best_move, ply);
    }
    best_score
}

/// Quiescence search: stand pat on the static evaluation, then search captures that
/// do not lose material in MVV-LVA order, failing hard at the window's bounds.
#[verifier::rlimit(60)]
#[verifier::spinoff_prover]
pub fn quiescence(pos: &Position, ctx: &mut SearchContext, alpha: i32, beta: i32, ply: usize) -> (r: i32)
    requires
        old(ctx).wf(),
        pos@.wf(),
        ply + popcount(pos@.white | pos@.black) <= QS_PLY_LIMIT,
        window_ok(alpha as int, beta as int, ply as int),
    ensures
        final(ctx).wf(),
        restored(final(ctx), old(ctx)),
        fixed(final(ctx), old(ctx)),
        final(ctx).excluded_move == old(ctx).excluded_move,
        -result_bound(ply as int) <= r <= result_bound(ply as int),
        old(ctx).stop_seen ==> final(ctx).stop_seen && r == DRAW_SCORE,
        !final(ctx).stop_seen && !drawn_in_quiescence(old(ctx).repetition_stack@, pos@)
            && old(ctx).tt.spec_probe(spec_zobrist(pos@)) is None && alpha < beta
            ==> alpha <= r <= beta && (r >= static_eval(old(ctx), pos@) || r == beta),
        !final(ctx).stop_seen && !drawn_in_quiescence(old(ctx).repetition_stack@, pos@)
            && old(ctx).tt.spec_probe(spec_zobrist(pos@)) is None && no_captures(pos@)
            ==> r == stand_pat(static_eval(old(ctx), pos@), alpha as int, beta as int),
    decreases popcount(pos@.white | pos@.black),
{
    let ghost start = *ctx;
    let board = pos.state();
    ctx.stats.nodes = ctx.stats.nodes.wrapping_add(1);
    count_up(&*ctx.node_count);
    check_time(ctx);
    if stopped(ctx) {
        return DRAW_SCORE;
    }
    if ctx.is_threefold(board) || ctx.is_50_moves(board) {
        return DRAW_SCORE;
    }
    let hash = pos.zobrist();
    if let Some(score) = tt_probe(hash, ctx, 0, alpha, beta, ply) {
        return score;
    }
    let static_eval: i32 = match ctx.tt.probe(hash) {
        Some(entry) => entry.eval,
        None => evaluate(board, ctx.network, &ctx.nnue.us, &ctx.nnue.them),
    };
    if static_eval >= beta {
        return beta;
    }
    let ghost alpha_in = alpha;
    let ghost no_entry = ctx.tt.spec_probe(hash) is None;
    let mut alpha = alpha;
    if static_eval > alpha {
        alpha = static_eval;
    }
    let alpha_at_entry = alpha;
    let mut moves = pos.capture_moves();
    let ghost caps = moves@;
    proof {
        assert forall|k: int| 0 <= k < moves@.len() implies mover_present(*board, #[trigger] moves@[k]) by {
            assert(moves@[k].wf() && moves@[k].from() is Some);
        }
    }
    ctx.ordering.order_captures(board, &mut moves);
    proof {
        lemma_sorted_elements(caps, moves@, choose|ks: Seq<int>| is_sorted_permutation(caps, moves@, ks));
        assert forall|k: int| 0 <= k < caps.len() implies spec_legal_moves(pos@).contains(#[trigger] caps[k]) by {
            spec_legal_moves(pos@).lemma_filter_contains_rev(|m: ChessMove| m.is_capture(), caps[k]);
        }
        broadcast use vstd::seq_lib::group_filter_ensures;
        assert forall|k: int| 0 <= k < caps.len() implies (#[trigger] caps[k]).is_capture() by {
            assert(spec_legal_moves(pos@).filter(|m: ChessMove| m.is_capture())[k] == caps[k]);
        }
    }
    let n = moves.len();
    let mut i: usize = 0;
    while i < n
        invariant
            n == moves@.len(),
            i <= n,
            ctx.wf(),
            restored(ctx, &start),
            fixed(ctx, &start),
            start == *old(ctx),
            ctx.excluded_move == start.excluded_move,
            !start.stop_seen,
            start.stop_seen ==> ctx.stop_seen,
            alpha_in <= alpha < beta || alpha_in >= beta,
            i == 0 ==> alpha == alpha_at_entry,
            alpha_at_entry == (if static_eval > alpha_in { static_eval } else { alpha_in }),
            static_eval < beta,
            caps == spec_legal_moves(pos@).filter(|m: ChessMove| m.is_capture()),
            alpha >= static_eval,
            no_entry ==> static_eval == self::static_eval(&start, pos@),
            pos@.wf(),
            *board == pos@,
            ply + popcount(pos@.white | pos@.black) <= QS_PLY_LIMIT,
            -window_bound(ply as int) <= alpha <= window_bound(ply as int),
            -window_bound(ply as int) <= beta <= window_bound(ply as int),
            forall|k: int| 0 <= k < moves@.len() ==> caps.contains(#[trigger] moves@[k]),
            forall|k: int| 0 <= k < caps.len() ==> spec_legal_moves(pos@).contains(#[trigger] caps[k]),
            forall|k: int| 0 <= k < caps.len() ==> (#[trigger] caps[k]).is_capture(),
            moves_well_formed(pos@, caps),
        decreases n - i,
    {
        let mv = moves[i];
        i += 1;
        proof {
            let j = choose|j: int| 0 <= j < caps.len() && caps[j] == mv;
            assert(caps[j] == mv);
            assert(mv.wf() && mv.from() is Some);
            assert(mv.is_capture());
        }
        let see_value = see(pos, mv) as i32;
        if see_value < 0 {
            continue;
        }
        let net: &Network = ctx.network;
        let ghost before = *ctx;
        make_move_nnue(board, &mv, net, &mut ctx.nnue);
        let child = pos.play(mv);
        let child_hash = child.zobrist();
        ctx.repetition_stack.push(child_hash);
        let score = -quiescence(&child, ctx, -beta, -alpha, ply + 1);
        ctx.repetition_stack.pop();
        assert(ctx.nnue.deltas().len() == ctx.nnue.stack@.len());
        unmake_move_nnue(net, &mut ctx.nnue);
        proof {
            lemma_make_unmake(before.nnue.us.vals@, before.nnue.them.vals@, net.feature_weights@, move_delta(*board, mv));
            assert(before.repetition_stack@.push(child_hash).drop_last() =~= before.repetition_stack@);
            assert(before.nnue.deltas().push(move_delta(*board, mv)).drop_last() =~= before.nnue.deltas());
        }
        if score >= beta {
            return beta;
        }
        if score > alpha {
            alpha = score;
        }
    }
    if !stopped(ctx) {
        tt_store(hash, ctx, 0, alpha, static_eval, alpha_at_entry, beta, None, ply);
    }
    alpha
}


/// Number of times the aspiration loop widens its window before it settles for
/// the last score.
pub const ASPIRATION_ROUNDS: usize = 64;

fn clamp_window(x: i64) -> (r: i32)
    ensures
        -SEARCH_BOUND <= r <= SEARCH_BOUND,
        -SEARCH_BOUND <= x <= SEARCH_BOUND ==> r == x,
{
    if x < -(SEARCH_BOUND as i64) {
        -SEARCH_BOUND
    } else if x > SEARCH_BOUND as i64 {
        SEARCH_BOUND
    } else {
        x as i32
    }
}

/// Aspiration search at the root: a window around the previous score, widened on
/// the failing side (by the window, then the window grows by the widening factor)
/// until the score lands inside it or the search is stopped. Windows are kept within
/// `SEARCH_BOUND`, and after `ASPIRATION_ROUNDS` widenings the last score is taken.
pub fn aspiration_search(pos: &Position, ctx: &mut SearchContext, depth: usize, prev_score: i32, pv: &mut PvTable) -> (r: i32)
    requires
        old(ctx).wf(),
        pos@.wf(),
        old(pv).wf(),
    ensures
        final(ctx).wf(),
        restored(final(ctx), old(ctx)),
        fixed(final(ctx), old(ctx)),
        final(pv).wf(),
        best_move_ok(final(pv).slots()[0], old(pv).slots()[0], pos@),
        -result_bound(0) <= r <= result_bound(0),
        is_mate(pos@) ==> r == -MATE_SCORE,
        final(ctx).excluded_move@ == old(ctx).excluded_move@,
{
    let mut window: i64 = ctx.params.aspw_window_size as i64;
    let mut alpha: i32 = clamp_window(prev_score as i64 - window);
    let mut beta: i32 = clamp_window(prev_score as i64 + window);
    let mut round: usize = 0;
    loop
        invariant
            ctx.wf(),
            restored(ctx, old(ctx)),
            fixed(ctx, old(ctx)),
            pos@.wf(),
            pv.wf(),
            best_move_ok(pv.slots()[0], old(pv).slots()[0], pos@),
            -SEARCH_BOUND <= alpha <= SEARCH_BOUND,
            -SEARCH_BOUND <= beta <= SEARCH_BOUND,
            -(SEARCH_BOUND as i64) <= window <= SEARCH_BOUND as i64,
            round < ASPIRATION_ROUNDS,
            ctx.excluded_move@ == old(ctx).excluded_move@,
        decreases ASPIRATION_ROUNDS - round,
    {
        let score = negamax(pos, ctx, depth, 0, alpha, beta, true, pv);
        if stopped(ctx) {
            return score;
        }
        if score <= alpha {
            let a: i64 = alpha as i64 - window;
            alpha = if a < MIN_INF as i64 { MIN_INF } else { clamp_window(a) };
        } else if score >= beta {
            let b: i64 = beta as i64 + window;
            beta = if b > MAX_INF as i64 { MAX_INF } else { clamp_window(b) };
        } else {
            return score;
        }
        round = round + 1;
        if round == ASPIRATION_ROUNDS {
            return score;
        }
        proof {
            assert(-(SEARCH_BOUND as int) * 100000 <= window * ctx.params.aspw_widening_factor
                <= (SEARCH_BOUND as int) * 100000) by (nonlinear_arith)
                requires
                    -(SEARCH_BOUND as int) <= window <= SEARCH_BOUND,
                    -100000 <= ctx.params.aspw_widening_factor <= 100000,
            ;
        }
        window = clamp_window(window * ctx.params.aspw_widening_factor as i64 / 10000) as i64;
    }
}

/// Number of times `h` occurs in `s`.
pub open spec fn occurrences(s: Seq<u64>, h: u64) -> nat {
    s.filter(|x: u64| x == h).len()
}

/// The line of moves the table gives from a position: at most `n` moves, stopping at
/// stalemate, insufficient material, a hundred half-moves, a position seen twice,
/// or a position whose table move is missing or not legal.
pub open spec fn tt_line(tt: crate::tt::TranspositionTable, s: BoardState, visited: Seq<u64>, n: nat) -> Seq<Option<ChessMove>>
    decreases n,
{
    if n == 0 || (!spec_is_check(s) && spec_legal_moves(s).len() == 0) || crate::position::spec_insufficient_material(s)
        || s.halfmoves >= 100 {
        Seq::empty()
    } else {
        let h = crate::position::spec_zobrist(s);
        if occurrences(visited, h) >= 2 {
            Seq::empty()
        } else {
            match tt.spec_probe(h) {
                Some(e) => match crate::tt::spec_validate_move(crate::tt::spec_encode_move(e.best_move), spec_legal_moves(s)) {
                    Some(m) => seq![Some(m)] + tt_line(tt, crate::position::spec_play(s, m), visited.push(h), (n - 1) as nat),
                    None => Seq::empty(),
                },
                None => Seq::empty(),
            }
        }
    }
}

fn count_occurrences(v: &Vec<u64>, h: u64) -> (r: usize)
    ensures
        r == occurrences(v@, h),
{
    let mut c: usize = 0;
    let mut i: usize = 0;
    while i < v.len()
        invariant
            i <= v@.len(),
            c == occurrences(v@.subrange(0, i as int), h),
            c <= i,
        decreases v@.len() - i,
    {
        proof {
            reveal(Seq::filter);
            assert(v@.subrange(0, i + 1).drop_last() =~= v@.subrange(0, i as int));
            assert(v@.subrange(0, i + 1).last() == v@[i as int]);
        }
        if v[i] == h {
            c = c + 1;
        }
        i += 1;
    }
    assert(v@.subrange(0, v@.len() as int) =~= v@);
    c
}

/// The principal variation stored in the table, from `pos` (see `tt_line`).
pub fn extract_pv_from_tt(pos: &Position, tt: &crate::tt::TranspositionTable, max_depth: usize, repetition_stack: &Vec<u64>)
    -> (r: Vec<Option<ChessMove>>)
    requires
        tt.wf(),
    ensures
        r@ == tt_line(*tt, pos@, repetition_stack@, max_depth as nat),
{
    let mut pv: Vec<Option<ChessMove>> = Vec::new();
    let mut current = pos.clone_position();
    let mut visited: Vec<u64> = repetition_stack.clone();
    let mut k: usize = 0;
    assert(visited@ == repetition_stack@);
    while k < max_depth
        invariant
            tt.wf(),
            k <= max_depth,
            pv@ + tt_line(*tt, current@, visited@, (max_depth - k) as nat) == tt_line(*tt, pos@, repetition_stack@, max_depth as nat),
        decreases max_depth - k,
    {
        let s = current.state();
        if current.is_stalemate() || current.is_insufficient_material() || s.halfmoves >= 100 {
            proof {
                assert(pv@ + Seq::<Option<ChessMove>>::empty() =~= pv@);
            }
            return pv;
        }
        let hash = current.zobrist();
        if count_occurrences(&visited, hash) >= 2 {
            proof {
                assert(pv@ + Seq::<Option<ChessMove>>::empty() =~= pv@);
            }
            return pv;
        }
        let legal = current.legal_moves();
        match tt.probe_move(hash, legal.as_slice()) {
            Some(mv) => {
                proof {
                    if let Some(e) = tt.spec_probe(hash) {
                        crate::tt::lemma_validate_in_list(crate::tt::spec_encode_move(e.best_move), legal@);
                    }
                    let rest = tt_line(*tt, crate::position::spec_play(current@, mv), visited@.push(hash), (max_depth - k - 1) as nat);
                    assert(pv@.push(Some(mv)) + rest =~= pv@ + (seq![Some(mv)] + rest));
                }
                pv.push(Some(mv));
                visited.push(hash);
                current = current.play(mv);
            },
            None => {
                proof {
                    assert(pv@ + Seq::<Option<ChessMove>>::empty() =~= pv@);
                }
                return pv;
            },
        }
        k += 1;
    }
    proof {
        assert(pv@ + Seq::<Option<ChessMove>>::empty() =~= pv@);
    }
    pv
}

/// UCI texts of the moves of a line, skipping empty slots.
pub open spec fn pv_words(line: Seq<Option<ChessMove>>, n: int) -> Seq<Seq<char>>
    decreases n,
{
    if n <= 0 {
        Seq::empty()
    } else {
        let w = pv_words(line, n - 1);
        match line[n - 1] {
            Some(m) => w.push(spec_move_to_uci(m)),
            None => w,
        }
    }
}

/// Words joined by single spaces.
pub open spec fn join_words(ws: Seq<Seq<char>>) -> Seq<char>
    decreases ws.len(),
{
    if ws.len() == 0 {
        Seq::empty()
    } else if ws.len() == 1 {
        ws[0]
    } else {
        join_words(ws.drop_last()) + seq![' '] + ws.last()
    }
}

/// A line of moves as UCI text, separated by spaces, empty slots left out.
pub fn pv_to_string(line: &Vec<Option<ChessMove>>) -> (r: String)
    requires
        forall|k: int| 0 <= k < line@.len() ==> (#[trigger] line@[k] matches Some(m) ==> m.wf()),
    ensures
        r@ == join_words(pv_words(line@, line@.len() as int)),
{
    let mut out = String::new();
    let mut any = false;
    let mut i: usize = 0;
    proof {
        reveal_strlit(" ");
    }
    while i < line.len()
        invariant
            i <= line@.len(),
            forall|k: int| 0 <= k < line@.len() ==> (#[trigger] line@[k] matches Some(m) ==> m.wf()),
            out@ == join_words(pv_words(line@, i as int)),
            any == (pv_words(line@, i as int).len() > 0),
            " "@ == seq![' '],
        decreases line@.len() - i,
    {
        match line[i] {
            Some(m) => {
                let ghost w = pv_words(line@, i as int);
                let text = move_to_uci(&m);
                if any {
                    out.append(" ");
                }
                out.append(text.as_str());
                any = true;
                proof {
                    let w2 = w.push(spec_move_to_uci(m));
                    assert(w2.drop_last() =~= w);
                    if w.len() == 0 {
                        assert(join_words(w2) == w2[0]);
                        assert(out@ =~= join_words(w2));
                    }
                }
            },
            None => {},
        }
        i += 1;
    }
    out
}

/// Receives the result of each completed iteration of the main search thread.
pub trait SearchObserver {
    fn on_depth(&mut self, ctx: &SearchContext, pos: &Position, depth: usize, score: i32, elapsed_ms: u64, pv: &PvTable,
        tt_pv: &Vec<Option<ChessMove>>);
}

/// Deepest iteration of a search; deeper requests are searched to this depth.
pub const MAX_SEARCH_DEPTH: usize = 800;

/// Iterative deepening from depth 1 to `max_depth` (at most `MAX_SEARCH_DEPTH`) within `time_limit_ms`: each
/// depth is searched with the full window (or an aspiration window from
/// `aspw_min_depth` on) unless time is up; the time limit is rescaled after each
/// completed depth. The main thread reports each completed depth with the table's
/// principal variation. Returns the last completed score, its best move (a legal
/// move of `pos`), and the last principal variation taken from the table. When every
/// iteration runs on the full window (`max_depth` below `aspw_min_depth`), a score
/// strictly between `MIN_INF` and `MAX_INF` comes with a move unless the root is mated.
pub fn search<O: SearchObserver>(pos: &Position, ctx: &mut SearchContext, max_depth: usize, time_limit_ms: u64,
    observer: &mut O) -> (r: (i32, Option<ChessMove>, Vec<Option<ChessMove>>))
    requires
        old(ctx).wf(),
        pos@.wf(),
        time_limit_ms <= 1000000000000,
        max_depth >= 1,
        spec_legal_moves(pos@).len() > 0,
    ensures
        final(ctx).wf(),
        restored(final(ctx), old(ctx)),
        final(ctx).params == old(ctx).params,
        final(ctx).excluded_move@ == old(ctx).excluded_move@,
        final(ctx).stats.completed_depth <= max_depth,
        final(ctx).stats.completed_depth == 0 ==> r.0 == MIN_INF && r.1 is None && r.2@.len() == 0,
        final(ctx).stats.completed_depth >= 1 && max_depth < old(ctx).params.aspw_min_depth
            && old(ctx).excluded_move@[0] is None && has_mate_in_one(pos@) ==> r.0 >= MATE_SCORE - 1,
        final(ctx).network == old(ctx).network,
        r.1 matches Some(m) ==> spec_legal_moves(pos@).contains(m),
        -result_bound(0) <= r.0 <= result_bound(0) || r.0 == MIN_INF,
        final(ctx).tt.spec_age() == (old(ctx).tt.spec_age() + 1) % 32,
        is_mate(pos@) ==> r.0 == -MATE_SCORE || r.0 == MIN_INF,
        max_depth < old(ctx).params.aspw_min_depth && !is_mate(pos@) && MIN_INF < r.0 < MAX_INF ==> r.1 is Some,
{
    let start_time = crate::clock::now();
    ctx.time_limit_ms = time_limit_ms;
    ctx.start_time = start_time;
    set_flag(&*ctx.stop, false);
    ctx.stop_seen = false;
    ctx.stats.completed_depth = 0;
    ctx.tt.increment_age();
    let mut tm = crate::time_manager::TimeManager::new(time_limit_ms, start_time);
    let mut best_score: i32 = MIN_INF;
    let mut best_move: Option<ChessMove> = None;
    let mut pv = PvTable::new();
    let mut prev_score: i32 = 0;
    let mut tt_pv: Vec<Option<ChessMove>> = Vec::new();
    let ghost entry = *ctx;
    let ghost max_depth_asked = max_depth;
    let max_depth: usize = if max_depth > MAX_SEARCH_DEPTH { MAX_SEARCH_DEPTH } else { max_depth };
    let mut depth: usize = 1;
    while depth <= max_depth
        invariant
            ctx.wf(),
            restored(ctx, old(ctx)),
            ctx.params == old(ctx).params,
            ctx.network == old(ctx).network,
            pos@.wf(),
            max_depth + 381 <= DEPTH_LIMIT,
            1 <= depth <= max_depth + 1,
            pv.wf(),
            pv.slots()[0] matches Some(m) ==> spec_legal_moves(pos@).contains(m),
            best_move matches Some(m) ==> spec_legal_moves(pos@).contains(m),
            -result_bound(0) <= best_score <= result_bound(0) || best_score == MIN_INF,
            -result_bound(0) <= prev_score <= result_bound(0),
            tm.base_time_ms == time_limit_ms,
            time_limit_ms <= 1000000000000,
            ctx.tt.spec_age() == (old(ctx).tt.spec_age() + 1) % 32,
            is_mate(pos@) ==> best_score == -MATE_SCORE || best_score == MIN_INF,
            max_depth <= max_depth_asked,
            max_depth_asked < old(ctx).params.aspw_min_depth && !is_mate(pos@) && MIN_INF < best_score < MAX_INF
                ==> best_move is Some,
            ctx.excluded_move@ == old(ctx).excluded_move@,
            ctx.stats.completed_depth < depth,
            ctx.stats.completed_depth == 0 ==> best_score == MIN_INF && best_move is None && tt_pv@.len() == 0,
            ctx.stats.completed_depth >= 1 && max_depth_asked < old(ctx).params.aspw_min_depth
                && old(ctx).excluded_move@[0] is None && has_mate_in_one(pos@) ==> best_score >= MATE_SCORE - 1,
        decreases max_depth + 1 - depth,
    {
        pv.clear();
        if tm.should_stop() {
            break;
        }
        let score = if depth >= ctx.params.aspw_min_depth as usize {
            aspiration_search(pos, ctx, depth, prev_score, &mut pv)
        } else {
            negamax(pos, ctx, depth, 0, MIN_INF, MAX_INF, true, &mut pv)
        };
        if stopped(ctx) {
            break;
        }
        tm.update(score, pv.best_move());
        ctx.time_limit_ms = tm.current_limit_ms;
        best_score = score;
        prev_score = score;
        best_move = pv.best_move();
        ctx.stats.completed_depth = depth;
        if ctx.is_main {
            tt_pv = extract_pv_from_tt(pos, &ctx.tt, depth + 20, &ctx.repetition_stack);
            let elapsed = tm.elapsed();
            observer.on_depth(&*ctx, pos, depth, best_score, elapsed, &pv, &tt_pv);
        }
        depth = depth + 1;
    }
    ctx.stats.duration_ms = tm.elapsed();
    (best_score, best_move, tt_pv)
}

} // verus!
