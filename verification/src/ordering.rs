//! Move ordering: captures by most valuable victim / least valuable attacker in
//! the quiescence search, and in the main search the transposition-table move,
//! the principal-variation move, captures by exchange evaluation, killers, then
//! quiet moves by history.

use vstd::prelude::*;
use crate::chess::{BoardState, ChessMove, Role, role_index};
use crate::context::{SearchContext, history_index, continuation_index};
use crate::position::Position;
use crate::see::{see, spec_see};
use crate::pv::MAX_PLY;
use crate::types::{trunc_div, MAX_PLY_CONTINUATION_HISTORY};

verus! {

/// Victim/attacker table for capture ordering.
pub struct MoveOrdering {
    pub mvv_lva: Vec<i32>,
}

impl Clone for MoveOrdering {
    /// A copy of the table.
    fn clone(&self) -> (r: Self)
        ensures
            r.mvv_lva@ == self.mvv_lva@,
    {
        let mut t: Vec<i32> = Vec::new();
        let mut i: usize = 0;
        while i < self.mvv_lva.len()
            invariant
                i <= self.mvv_lva@.len(),
                t@ == self.mvv_lva@.take(i as int),
            decreases self.mvv_lva@.len() - i,
        {
            t.push(self.mvv_lva[i]);
            proof {
                assert(self.mvv_lva@.take(i + 1) =~= self.mvv_lva@.take(i as int).push(self.mvv_lva@[i as int]));
            }
            i += 1;
        }
        proof {
            assert(self.mvv_lva@.take(self.mvv_lva@.len() as int) =~= self.mvv_lva@);
        }
        MoveOrdering { mvv_lva: t }
    }
}

/// MVV-LVA score of an attacker/victim pair for the given piece values: the
/// victim's value plus six, minus the attacker's value in pawns.
pub open spec fn mvv_lva_entry(piece_values: Seq<i32>, attacker: int, victim: int) -> int {
    piece_values[victim] + 6 - trunc_div(piece_values[attacker] as int, 100)
}

/// Whether every entry of the MVV-LVA table fits in an `i32`.
pub open spec fn mvv_lva_fits(piece_values: Seq<i32>) -> bool {
    &&& forall|v: int| 0 <= v < 6 ==> #[trigger] piece_values[v] + 6 <= i32::MAX
    &&& forall|a: int, v: int| 0 <= a < 6 && 0 <= v < 6 ==> i32::MIN <= #[trigger] mvv_lva_entry(piece_values, a, v) <= i32::MAX
}

/// Slot of an attacker/victim pair.
pub open spec fn mvv_lva_slot(attacker: int, victim: int) -> int {
    attacker * 6 + victim
}

/// Role index of the piece a capture takes (a pawn when the target is empty).
pub open spec fn victim_of(s: BoardState, mv: ChessMove) -> int {
    match s.spec_role_at(mv.to()) {
        Some(r) => role_index(r) as int,
        None => 0,
    }
}

/// Role index of the moving piece.
pub open spec fn attacker_of(s: BoardState, mv: ChessMove) -> int {
    role_index(s.spec_role_at(mv.from()->0)->0) as int
}

/// Whether the moving piece of a move is on its origin square.
pub open spec fn mover_present(s: BoardState, mv: ChessMove) -> bool {
    &&& mv.wf()
    &&& mv.from() is Some
    &&& s.spec_role_at(mv.from()->0) is Some
}

impl MoveOrdering {
    /// Table of MVV-LVA scores for the given piece values.
    pub open spec fn wf(&self) -> bool {
        self.mvv_lva@.len() == 36
    }

    /// Builds the table: entry (attacker, victim) is the victim's value plus six,
    /// minus the attacker's value divided by 100.
    pub fn new(piece_values: &[i32; 6]) -> (r: MoveOrdering)
        requires
            mvv_lva_fits(piece_values@),
        ensures
            r.wf(),
            forall|a: int, v: int| 0 <= a < 6 && 0 <= v < 6 ==> #[trigger] r.mvv_lva@[mvv_lva_slot(a, v)]
                == mvv_lva_entry(piece_values@, a, v),
    {
        let mut table: Vec<i32> = Vec::new();
        let mut attacker: usize = 0;
        while attacker < 6
            invariant
                attacker <= 6,
                mvv_lva_fits(piece_values@),
                table@.len() == attacker * 6,
                forall|a: int, v: int| 0 <= a < attacker && 0 <= v < 6 ==> #[trigger] table@[mvv_lva_slot(a, v)]
                    == mvv_lva_entry(piece_values@, a, v),
            decreases 6 - attacker,
        {
            let mut victim: usize = 0;
            while victim < 6
                invariant
                    attacker < 6,
                    victim <= 6,
                    mvv_lva_fits(piece_values@),
                    table@.len() == attacker * 6 + victim,
                    forall|a: int, v: int| 0 <= a < attacker && 0 <= v < 6 ==> #[trigger] table@[mvv_lva_slot(a, v)]
                        == mvv_lva_entry(piece_values@, a, v),
                    forall|v: int| 0 <= v < victim ==> #[trigger] table@[mvv_lva_slot(attacker as int, v)]
                        == mvv_lva_entry(piece_values@, attacker as int, v),
                decreases 6 - victim,
            {
                assert(piece_values@[victim as int] + 6 <= i32::MAX);
                assert(i32::MIN <= mvv_lva_entry(piece_values@, attacker as int, victim as int) <= i32::MAX);
                let e = (piece_values[victim] + 6) - piece_values[attacker] / 100;
                table.push(e);
                victim += 1;
            }
            attacker += 1;
        }
        MoveOrdering { mvv_lva: table }
    }

    /// MVV-LVA score of a capture.
    pub fn mvv_lva_score(&self, pos: &BoardState, mv: &ChessMove) -> (r: i32)
        requires
            self.wf(),
            mover_present(*pos, *mv),
        ensures
            r == self.mvv_lva@[mvv_lva_slot(attacker_of(*pos, *mv), victim_of(*pos, *mv))],
    {
        let from = match mv.from() {
            Some(f) => f,
            None => 0,
        };
        let attacker = match pos.role_at(from) {
            Some(r) => role_index(r),
            None => 0,
        };
        let victim = match pos.role_at(mv.to()) {
            Some(r) => role_index(r),
            None => 0,
        };
        self.mvv_lva[attacker * 6 + victim]
    }

    /// Orders captures by MVV-LVA score, highest first; captures with equal scores
    /// keep their order.
    pub fn order_captures(&self, pos: &BoardState, moves: &mut Vec<ChessMove>)
        requires
            self.wf(),
            forall|i: int| 0 <= i < old(moves)@.len() ==> mover_present(*pos, #[trigger] old(moves)@[i]),
        ensures
            is_sorted_permutation(old(moves)@, final(moves)@,
                Seq::new(old(moves)@.len(), |i: int| self.mvv_lva@[mvv_lva_slot(attacker_of(*pos, old(moves)@[i]),
                    victim_of(*pos, old(moves)@[i]))] as int)),
    {
        let mut keys: Vec<i32> = Vec::new();
        let mut i: usize = 0;
        while i < moves.len()
            invariant
                self.wf(),
                i <= moves@.len(),
                moves@ == old(moves)@,
                forall|k: int| 0 <= k < old(moves)@.len() ==> mover_present(*pos, #[trigger] old(moves)@[k]),
                keys@.len() == i,
                forall|k: int| 0 <= k < i ==> keys@[k] == self.mvv_lva@[mvv_lva_slot(attacker_of(*pos, old(moves)@[k]),
                    victim_of(*pos, old(moves)@[k]))],
            decreases moves@.len() - i,
        {
            let s = self.mvv_lva_score(pos, &moves[i]);
            keys.push(s);
            i += 1;
        }
        let ghost ks = Seq::new(old(moves)@.len(), |i: int| self.mvv_lva@[mvv_lva_slot(attacker_of(*pos, old(moves)@[i]),
            victim_of(*pos, old(moves)@[i]))] as int);
        assert(keys@.map_values(|k: i32| k as int) =~= ks);
        sort_by_keys(moves, &keys);
    }
}

// ---------------------------------------------------------------------------
// Main-search ordering
// ---------------------------------------------------------------------------

/// Move played `i + 1` plies before `ply`, if that far back is inside the search.
pub open spec fn earlier_move(moves: Seq<Option<ChessMove>>, ply: int, i: int) -> Option<ChessMove> {
    if ply > i { moves[ply - 1 - i] } else { None }
}

/// Sum of the continuation entries of `mv` after each of the first `n` earlier moves.
pub open spec fn ordering_cont_sum(cont: Seq<i16>, moves: Seq<Option<ChessMove>>, ply: int, mv: ChessMove, n: int) -> int
    decreases n,
{
    if n <= 0 {
        0
    } else {
        ordering_cont_sum(cont, moves, ply, mv, n - 1) + match earlier_move(moves, ply, n - 1) {
            Some(prev) => cont[continuation_index(n - 1, prev, mv)] as int,
            None => 0,
        }
    }
}

/// Ordering score of a move: the transposition-table move, then the principal
/// variation move, then captures by exchange evaluation, then the three killers,
/// then quiet moves by history plus continuation history.
pub open spec fn spec_score_move(s: BoardState, hist: Seq<i16>, cont: Seq<i16>, moves: Seq<Option<ChessMove>>,
    mv: ChessMove, pv_move: Option<ChessMove>, tt_move: Option<ChessMove>, killers: Seq<Option<ChessMove>>, ply: int) -> int {
    if tt_move == Some(mv) {
        1_000_000
    } else if pv_move == Some(mv) {
        900_000
    } else if mv.is_capture() {
        let see = spec_see(s, mv) as int;
        if see > 0 {
            800_000 + see
        } else if see == 0 {
            750_000
        } else {
            5000 + see
        }
    } else if killers[0] == Some(mv) {
        700_000
    } else if killers[1] == Some(mv) {
        699_000
    } else if killers[2] == Some(mv) {
        698_000
    } else {
        hist[history_index(s.turn.repr() as int, mv)] as int + ordering_cont_sum(cont, moves, ply, mv, MAX_PLY_CONTINUATION_HISTORY as int)
    }
}

impl MoveOrdering {
    /// Ordering score of a move in the main search (see `spec_score_move`).
    pub fn score_move(&self, pos: &Position, ctx: &SearchContext, mv: &ChessMove, pv_move: Option<ChessMove>,
        tt_move: Option<ChessMove>, killers: &[Option<ChessMove>; 3], ply: usize) -> (r: i32)
        requires
            ctx.wf(),
            ply <= MAX_PLY,
            mover_present(pos@, *mv),
            mv !is Put,
        ensures
            r == spec_score_move(pos@, ctx.history@, ctx.continuation_history@, ctx.stack.moves@, *mv, pv_move, tt_move,
                killers@, ply as int),
    {
        if tt_move == Some(*mv) {
            return 1_000_000;
        }
        if pv_move == Some(*mv) {
            return 900_000;
        }
        if mv.is_capture() {
            let see = see(pos, *mv);
            if see > 0 {
                return 800_000 + see as i32;
            } else if see == 0 {
                return 750_000;
            } else {
                return 5000 + see as i32;
            }
        }
        if killers[0] == Some(*mv) {
            return 700_000;
        }
        if killers[1] == Some(*mv) {
            return 699_000;
        }
        if killers[2] == Some(*mv) {
            return 698_000;
        }
        let side = pos.state().turn.repr();
        let piece = role_index(mv.role());
        let from = match mv.from() {
            Some(f) => f as usize,
            None => 0,
        };
        let to = mv.to() as usize;
        let mut score: i32 = ctx.history[side * 4096 + from * 64 + to] as i32;
        let mut i: usize = 0;
        while i < MAX_PLY_CONTINUATION_HISTORY
            invariant
                i <= MAX_PLY_CONTINUATION_HISTORY,
                ctx.wf(),
                ply <= MAX_PLY,
                mv.wf(),
                piece == role_index(mv.role()),
                to == mv.to(),
                score == ctx.history@[history_index(pos@.turn.repr() as int, *mv)] as int
                    + ordering_cont_sum(ctx.continuation_history@, ctx.stack.moves@, ply as int, *mv, i as int),
                -32768 * (i + 1) <= score <= 32767 * (i + 1),
            decreases MAX_PLY_CONTINUATION_HISTORY - i,
        {
            if ply > i {
                if let Some(prev) = ctx.stack.moves[ply - 1 - i] {
                    assert(ctx.stack.moves@[ply - 1 - i] matches Some(p) ==> p.wf());
                    let prev_piece = role_index(prev.role());
                    let prev_to = prev.to() as usize;
                    score = score + ctx.continuation_history[i * 147456 + prev_piece * 24576 + prev_to * 384 + piece * 64 + to] as i32;
                }
            }
            i += 1;
        }
        score
    }

    /// Orders moves by `score_move`, highest first; moves with equal scores keep
    /// their order.
    pub fn order_moves(&self, pos: &Position, ctx: &SearchContext, pv_move: Option<ChessMove>, tt_move: Option<ChessMove>,
        killers: &[Option<ChessMove>; 3], ply: usize, moves: &mut Vec<ChessMove>)
        requires
            ctx.wf(),
            ply <= MAX_PLY,
            forall|i: int| 0 <= i < old(moves)@.len() ==> mover_present(pos@, #[trigger] old(moves)@[i]) && old(moves)@[i] !is Put,
        ensures
            is_sorted_permutation(old(moves)@, final(moves)@,
                Seq::new(old(moves)@.len(), |i: int| spec_score_move(pos@, ctx.history@, ctx.continuation_history@,
                    ctx.stack.moves@, old(moves)@[i], pv_move, tt_move, killers@, ply as int))),
    {
        let mut keys: Vec<i32> = Vec::new();
        let mut i: usize = 0;
        while i < moves.len()
            invariant
                ctx.wf(),
                ply <= MAX_PLY,
                i <= moves@.len(),
                moves@ == old(moves)@,
                forall|k: int| 0 <= k < old(moves)@.len() ==> mover_present(pos@, #[trigger] old(moves)@[k]) && old(moves)@[k] !is Put,
                keys@.len() == i,
                forall|k: int| 0 <= k < i ==> keys@[k] == spec_score_move(pos@, ctx.history@, ctx.continuation_history@,
                    ctx.stack.moves@, old(moves)@[k], pv_move, tt_move, killers@, ply as int),
            decreases moves@.len() - i,
        {
            let s = self.score_move(pos, ctx, &moves[i], pv_move, tt_move, killers, ply);
            keys.push(s);
            i += 1;
        }
        let ghost ks = Seq::new(old(moves)@.len(), |i: int| spec_score_move(pos@, ctx.history@, ctx.continuation_history@,
            ctx.stack.moves@, old(moves)@[i], pv_move, tt_move, killers@, ply as int));
        assert(keys@.map_values(|k: i32| k as int) =~= ks);
        sort_by_keys(moves, &keys);
    }
}

// ---------------------------------------------------------------------------
// Sorting by keys
// ---------------------------------------------------------------------------

/// Whether `p` lists each of `0 .. n` exactly once.
pub open spec fn is_permutation(p: Seq<int>, n: int) -> bool {
    &&& p.len() == n
    &&& forall|k: int| 0 <= k < n ==> 0 <= #[trigger] p[k] < n
    &&& forall|k: int, l: int| 0 <= k < l < n ==> #[trigger] p[k] != #[trigger] p[l]
}

/// Whether item `a` (key `ka`, input index `ia`) comes before item `b`: higher key
/// first, then the earlier input position.
pub open spec fn before(ka: int, ia: int, kb: int, ib: int) -> bool {
    ka > kb || (ka == kb && ia < ib)
}

/// `out` is `input` rearranged so that keys decrease, ties in their input order.
pub open spec fn is_sorted_permutation(input: Seq<ChessMove>, out: Seq<ChessMove>, keys: Seq<int>) -> bool {
    exists|p: Seq<int>| {
        &&& is_permutation(p, input.len() as int)
        &&& out.len() == input.len()
        &&& forall|k: int| 0 <= k < out.len() ==> #[trigger] out[k] == input[p[k]]
        &&& forall|k: int, l: int| 0 <= k < l < out.len() ==> before(keys[#[trigger] p[k]], p[k], keys[#[trigger] p[l]], p[l])
    }
}

/// Rearranges `moves` by decreasing key, ties in their input order
/// (selection sort on (key, input index)).
pub fn sort_by_keys(moves: &mut Vec<ChessMove>, keys: &Vec<i32>)
    requires
        keys@.len() == old(moves)@.len(),
    ensures
        is_sorted_permutation(old(moves)@, final(moves)@, keys@.map_values(|k: i32| k as int)),
{
    let n = moves.len();
    let ghost ks = keys@.map_values(|k: i32| k as int);
    let ghost input = moves@;
    let mut idx: Vec<usize> = Vec::new();
    let mut i: usize = 0;
    while i < n
        invariant
            i <= n,
            idx@.len() == i,
            forall|k: int| 0 <= k < i ==> idx@[k] == k,
        decreases n - i,
    {
        idx.push(i);
        i += 1;
    }
    i = 0;
    while i < n
        invariant
            n == input.len(),
            n == keys@.len(),
            ks == keys@.map_values(|k: i32| k as int),
            i <= n,
            idx@.len() == n,
            is_permutation(idx@.map_values(|x: usize| x as int), n as int),
            forall|k: int, l: int| 0 <= k < l < i ==> before(ks[#[trigger] idx@[k] as int], idx@[k] as int,
                ks[#[trigger] idx@[l] as int], idx@[l] as int),
            forall|k: int, l: int| 0 <= k < i <= l < n ==> before(ks[#[trigger] idx@[k] as int], idx@[k] as int,
                ks[#[trigger] idx@[l] as int], idx@[l] as int),
        decreases n - i,
    {
        proof {
            let p = idx@.map_values(|x: usize| x as int);
            assert forall|k: int| 0 <= k < n implies #[trigger] idx@[k] < n by {
                assert(p[k] == idx@[k] as int);
            }
            assert forall|k: int, l: int| 0 <= k < n && 0 <= l < n && k != l implies #[trigger] idx@[k] != #[trigger] idx@[l] by {
                assert(p[k] == idx@[k] as int);
                assert(p[l] == idx@[l] as int);
                if k < l {
                    assert(p[k] != p[l]);
                } else {
                    assert(p[l] != p[k]);
                }
            }
        }
        let mut best = i;
        let mut j = i + 1;
        while j < n
            invariant
                forall|k: int, l: int| 0 <= k < n && 0 <= l < n && k != l ==> #[trigger] idx@[k] != #[trigger] idx@[l],
                n == keys@.len(),
                ks == keys@.map_values(|k: i32| k as int),
                i < n,
                i <= best < j <= n,
                idx@.len() == n,
                forall|k: int| 0 <= k < n ==> #[trigger] idx@[k] < n,
                forall|l: int| i <= l < j && l != best ==> before(ks[idx@[best as int] as int], idx@[best as int] as int,
                    ks[#[trigger] idx@[l] as int], idx@[l] as int),
            decreases n - j,
        {
            let kb = keys[idx[best]];
            let kj = keys[idx[j]];
            if kj > kb || (kj == kb && idx[j] < idx[best]) {
                best = j;
            }
            j += 1;
        }
        let ghost before_swap = idx@;
        let a = idx[i];
        let b = idx[best];
        idx.set(i, b);
        idx.set(best, a);
        proof {
            let p0 = before_swap.map_values(|x: usize| x as int);
            let p1 = idx@.map_values(|x: usize| x as int);
            assert forall|k: int, l: int| 0 <= k < l < n implies #[trigger] p1[k] != #[trigger] p1[l] by {
                let sk = if k == i { best as int } else if k == best { i as int } else { k };
                let sl = if l == i { best as int } else if l == best { i as int } else { l };
                assert(p1[k] == p0[sk]);
                assert(p1[l] == p0[sl]);
                if sk < sl {
                    assert(p0[sk] != p0[sl]);
                } else {
                    assert(p0[sl] != p0[sk]);
                }
            }
        }
        i += 1;
    }
    proof {
        let p = idx@.map_values(|x: usize| x as int);
        assert forall|k: int| 0 <= k < n implies #[trigger] idx@[k] < n by {
            assert(p[k] == idx@[k] as int);
        }
    }
    let mut out: Vec<ChessMove> = Vec::new();
    let mut k: usize = 0;
    while k < n
        invariant
            n == input.len(),
            idx@.len() == n,
            forall|q: int| 0 <= q < n ==> #[trigger] idx@[q] < n,
            k <= n,
            out@.len() == k,
            forall|q: int| 0 <= q < k ==> #[trigger] out@[q] == input[idx@[q] as int],
            moves@ == input,
        decreases n - k,
    {
        out.push(moves[idx[k]]);
        k += 1;
    }
    proof {
        let p = idx@.map_values(|x: usize| x as int);
        assert(forall|q: int| 0 <= q < n ==> #[trigger] out@[q] == input[p[q]]);
        assert(forall|k: int, l: int| 0 <= k < l < n ==> before(ks[#[trigger] p[k]], p[k], ks[#[trigger] p[l]], p[l]));
    }
    *moves = out;
}


/// MVV-LVA order: with the same attacker a more valuable victim scores strictly
/// higher, and with the same victim a more valuable attacker never scores higher.
pub proof fn lemma_mvv_lva_order(piece_values: Seq<i32>, a: int, a2: int, v: int, v2: int)
    requires
        piece_values.len() == 6,
        0 <= a < 6,
        0 <= a2 < 6,
        0 <= v < 6,
        0 <= v2 < 6,
    ensures
        piece_values[v] < piece_values[v2] ==> mvv_lva_entry(piece_values, a, v) < mvv_lva_entry(piece_values, a, v2),
        piece_values[a] <= piece_values[a2] ==> mvv_lva_entry(piece_values, a2, v) <= mvv_lva_entry(piece_values, a, v),
{
    let x = piece_values[a] as int;
    let y = piece_values[a2] as int;
    if x <= y {
        if x >= 0 {
            vstd::arithmetic::div_mod::lemma_div_is_ordered(x, y, 100);
        } else if y >= 0 {
            assert(-x > 0);
            assert((-x) / 100 >= 0) by (nonlinear_arith)
                requires
                    -x > 0,
            ;
            assert(y / 100 >= 0) by (nonlinear_arith)
                requires
                    y >= 0,
            ;
        } else {
            vstd::arithmetic::div_mod::lemma_div_is_ordered(-y, -x, 100);
        }
    }
}

} // verus!
