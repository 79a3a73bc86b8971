//! The state a search thread carries from node to node: limits and shared flags,
//! the repetition stack, killer moves, history tables, the per-ply stack, the
//! transposition table and the incremental accumulators.

use vstd::prelude::*;
use std::sync::Arc;
use std::sync::atomic::{AtomicBool, AtomicU64};
use std::time::Instant;
use crate::chess::{BoardState, ChessMove, Role, role_index};
use crate::history::{gravity_at, update_history_value, gravity};
use crate::network::Network;
use crate::nnue_state::NNUEState;
use crate::ordering::MoveOrdering;
use crate::params::{Params, params_ok};
use crate::pv::MAX_PLY;
use crate::tt::TranspositionTable;
use crate::types::{MAX_PLY_CONTINUATION_HISTORY, rust_div, div_i32};
use crate::clock::now;

verus! {

/// Number of quiet-history entries: side (2) x from (64) x to (64).
pub const HISTORY_SIZE: usize = 8192;
/// Number of capture-history entries: victim (6) x target (64) x attacker (6).
pub const CAPTURE_HISTORY_SIZE: usize = 2304;
/// Number of continuation-history entries: offset (4) x previous role (6) x previous
/// target (64) x role (6) x target (64).
pub const CONTINUATION_SIZE: usize = 589824;

/// Per-ply search stack: the move played, the static evaluation and the number of
/// double extensions on the path.
pub struct Stack {
    pub moves: Vec<Option<ChessMove>>,
    pub evals: Vec<i32>,
    pub double_exts: Vec<i32>,
}

/// Counters of a search.
#[derive(Clone, Copy, PartialEq, Eq, Debug, Structural)]
pub struct SearchStats {
    pub nodes: u64,
    pub depth_sum: u64,
    pub depth_samples: u64,
    pub seldepth: u32,
    pub completed_depth: usize,
    pub duration_ms: u64,
    pub singular_extensions: u32,
}

impl SearchStats {
    /// All counters at zero.
    pub fn default() -> (r: SearchStats)
        ensures
            r == (SearchStats { nodes: 0, depth_sum: 0, depth_samples: 0, seldepth: 0, completed_depth: 0,
                duration_ms: 0, singular_extensions: 0 }),
    {
        SearchStats { nodes: 0, depth_sum: 0, depth_samples: 0, seldepth: 0, completed_depth: 0, duration_ms: 0,
            singular_extensions: 0 }
    }
}

/// Everything a search thread reads and updates.
pub struct SearchContext<'a> {
    pub start_time: Instant,
    pub time_limit_ms: u64,
    pub node_limit: u64,
    pub stop: Arc<AtomicBool>,
    pub node_count: Arc<AtomicU64>,
    pub is_main: bool,
    pub params: Params,
    pub ordering: MoveOrdering,
    pub stats: SearchStats,
    pub repetition_stack: Vec<u64>,
    pub tt: TranspositionTable,
    pub nnue: NNUEState,
    pub network: &'a Network,
    /// Three killer slots per ply.
    pub killers: Vec<Option<ChessMove>>,
    pub history: Vec<i16>,
    pub capture_history: Vec<i16>,
    pub continuation_history: Vec<i16>,
    pub stack: Stack,
    pub excluded_move: Vec<Option<ChessMove>>,
    /// Late move reduction by depth and move number, both below 64.
    pub lmr_table: Vec<u8>,
    /// Whether this search has read the stop flag raised; it stays set until the
    /// next search starts.
    pub stop_seen: bool,
}

/// Quiet-history slot of a move for a side (0 black, 1 white).
pub open spec fn history_index(side: int, m: ChessMove) -> int {
    side * 4096 + (m.from()->0 as int) * 64 + m.to() as int
}

/// Role index of the piece a capture takes: the piece on the target, a pawn if the
/// target is empty (en passant).
pub open spec fn captured_index(s: BoardState, m: ChessMove) -> int {
    match s.spec_role_at(m.to()) {
        Some(r) => role_index(r) as int,
        None => 0,
    }
}

/// Capture-history slot of a capture: victim, target, moving piece.
pub open spec fn capture_index(s: BoardState, m: ChessMove) -> int {
    captured_index(s, m) * 384 + (m.to() as int) * 6 + role_index(s.spec_role_at(m.from()->0)->0) as int
}

/// Continuation slot for move `m` following `prev` played `i + 1` plies earlier.
pub open spec fn continuation_index(i: int, prev: ChessMove, m: ChessMove) -> int {
    i * 147456 + (role_index(prev.role()) as int) * 24576 + (prev.to() as int) * 384
        + (role_index(m.role()) as int) * 64 + m.to() as int
}

/// Whether offset `i` takes part at `ply`: the moves one, two and four plies back.
pub open spec fn offset_used(ply: int, i: int) -> bool {
    ply > i && ((i + 1) % 2 == 0 || i == 0)
}

/// Move played `i + 1` plies before `ply`, if the offset takes part and a move was played.
pub open spec fn prev_move(moves: Seq<Option<ChessMove>>, ply: int, i: int) -> Option<ChessMove> {
    if offset_used(ply, i) {
        moves[ply - 1 - i]
    } else {
        None
    }
}

/// Continuation table after gravity updates of `m`'s entries over the first `n` offsets.
pub open spec fn continuation_apply(t: Seq<i16>, ply: int, m: ChessMove, bonus: int, moves: Seq<Option<ChessMove>>, n: int) -> Seq<i16>
    decreases n,
{
    if n <= 0 {
        t
    } else {
        let prev_t = continuation_apply(t, ply, m, bonus, moves, n - 1);
        match prev_move(moves, ply, n - 1) {
            Some(prev) => gravity_at(prev_t, continuation_index(n - 1, prev, m), bonus),
            None => prev_t,
        }
    }
}

/// Sum of the continuation entries for `m` over the first `n` offsets.
pub open spec fn continuation_sum(t: Seq<i16>, ply: int, m: ChessMove, moves: Seq<Option<ChessMove>>, n: int) -> int
    decreases n,
{
    if n <= 0 {
        0
    } else {
        continuation_sum(t, ply, m, moves, n - 1) + match prev_move(moves, ply, n - 1) {
            Some(prev) => t[continuation_index(n - 1, prev, m)] as int,
            None => 0,
        }
    }
}

/// Capture table after the malus of `malus` to every one of the first `n` searched
/// tactical moves that is not `mv`.
pub open spec fn capture_malus_pass(t: Seq<i16>, s: BoardState, mv: ChessMove, malus: int, others: Seq<ChessMove>, n: int) -> Seq<i16>
    decreases n,
{
    if n <= 0 {
        t
    } else {
        let prev = capture_malus_pass(t, s, mv, malus, others, n - 1);
        if others[n - 1] != mv {
            gravity_at(prev, capture_index(s, others[n - 1]), malus)
        } else {
            prev
        }
    }
}

/// Quiet table of `side` after the malus of `malus` to every one of the first `n`
/// searched quiets that is not `mv`.
pub open spec fn quiet_malus_pass(t: Seq<i16>, side: int, mv: ChessMove, malus: int, others: Seq<ChessMove>, n: int) -> Seq<i16>
    decreases n,
{
    if n <= 0 {
        t
    } else {
        let prev = quiet_malus_pass(t, side, mv, malus, others, n - 1);
        if others[n - 1] != mv {
            gravity_at(prev, history_index(side, others[n - 1]), malus)
        } else {
            prev
        }
    }
}

/// Continuation table after the malus pass over the first `n` searched quiets.
pub open spec fn continuation_malus(t: Seq<i16>, ply: int, mv: ChessMove, malus: int, quiets: Seq<ChessMove>,
    moves: Seq<Option<ChessMove>>, n: int) -> Seq<i16>
    decreases n,
{
    if n <= 0 {
        t
    } else {
        let prev = continuation_malus(t, ply, mv, malus, quiets, moves, n - 1);
        if quiets[n - 1] != mv {
            continuation_apply(prev, ply, quiets[n - 1], malus, moves, MAX_PLY_CONTINUATION_HISTORY as int)
        } else {
            prev
        }
    }
}

/// Whether a move has on-board squares and an origin square.
pub open spec fn has_origin(m: ChessMove) -> bool {
    m.wf() && m.from() is Some
}

/// Whether every move on the stack has on-board squares.
pub open spec fn stack_moves_ok(moves: Seq<Option<ChessMove>>) -> bool {
    forall|k: int| 0 <= k < moves.len() ==> (#[trigger] moves[k] matches Some(p) ==> p.wf())
}

/// Whether the first `n` entries of a repetition stack starting at `start` that come
/// before its last entry hold that last entry.
pub open spec fn repeats_last(st: Seq<u64>, start: int) -> bool {
    exists|k: int| start <= k < st.len() - 1 && st[k] == st.last()
}

/// Start of the repetition window: positions since the last irreversible move.
pub open spec fn window_start(len: int, halfmoves: int) -> int {
    if len >= halfmoves + 1 { len - (halfmoves + 1) } else { 0 }
}

impl<'a> SearchContext<'a> {
    /// Sizes of every table and stack, and the invariants of the parts.
    pub open spec fn wf(&self) -> bool {
        &&& self.killers@.len() == 3 * MAX_PLY
        &&& self.history@.len() == HISTORY_SIZE
        &&& self.capture_history@.len() == CAPTURE_HISTORY_SIZE
        &&& self.continuation_history@.len() == CONTINUATION_SIZE
        &&& self.stack.moves@.len() == MAX_PLY
        &&& self.stack.evals@.len() == MAX_PLY
        &&& self.stack.double_exts@.len() == MAX_PLY
        &&& self.excluded_move@.len() == MAX_PLY
        &&& self.lmr_table@.len() == 64 * 64
        &&& stack_moves_ok(self.stack.moves@)
        &&& forall|k: int| 0 <= k < self.killers@.len() ==> (#[trigger] self.killers@[k] matches Some(p) ==> p.wf())
        &&& forall|k: int| 0 <= k < self.excluded_move@.len() ==> (#[trigger] self.excluded_move@[k] matches Some(p) ==> p.wf())
        &&& self.tt.wf()
        &&& self.nnue.wf()
        &&& self.network.wf()
        &&& params_ok(self.params)
        &&& self.ordering.wf()
        &&& forall|k: int| 0 <= k < self.stack.evals@.len() ==> -32768 <= #[trigger] self.stack.evals@[k] <= 32767
        &&& forall|k: int| 0 <= k < self.stack.double_exts@.len() ==> -1000000 <= #[trigger] self.stack.double_exts@[k] <= 1000000
    }

    /// The limits, shared flags, parameters, ordering table and network are those of `other`.
    pub open spec fn same_settings(&self, other: &Self) -> bool {
        &&& self.params == other.params
        &&& self.ordering == other.ordering
        &&& self.network == other.network
        &&& self.stop == other.stop
        &&& self.node_count == other.node_count
        &&& self.is_main == other.is_main
        &&& self.time_limit_ms == other.time_limit_ms
        &&& self.start_time == other.start_time
    }

    /// Everything but the killer slots is as in `other`.
    pub open spec fn same_but_killers(&self, other: &Self) -> bool {
        &&& self.history == other.history
        &&& self.capture_history == other.capture_history
        &&& self.continuation_history == other.continuation_history
        &&& self.stack == other.stack
        &&& self.params == other.params
        &&& self.ordering == other.ordering
        &&& self.repetition_stack == other.repetition_stack
        &&& self.tt == other.tt
        &&& self.nnue == other.nnue
        &&& self.network == other.network
        &&& self.excluded_move == other.excluded_move
        &&& self.lmr_table == other.lmr_table
        &&& self.stop_seen == other.stop_seen
        &&& self.stats == other.stats
        &&& self.same_settings(other)
    }

    // -------------------------------------------------------------------------
    // Threefold and fifty moves
    // -------------------------------------------------------------------------

    /// Whether the current position (the last entry of the repetition stack) already
    /// occurred since the last irreversible move: a single earlier occurrence counts.
    pub fn is_threefold(&self, pos: &BoardState) -> (r: bool)
        ensures
            r == (self.repetition_stack@.len() > 0
                && repeats_last(self.repetition_stack@, window_start(self.repetition_stack@.len() as int, pos.halfmoves as int))),
    {
        let len = self.repetition_stack.len();
        if len == 0 {
            return false;
        }
        let current = self.repetition_stack[len - 1];
        let h = pos.halfmoves as usize;
        let start: usize = if len > h { len - h - 1 } else { 0 };
        let mut k: usize = len - 1;
        while k > start
            invariant
                start <= k <= len - 1,
                len == self.repetition_stack@.len(),
                current == self.repetition_stack@.last(),
                start == window_start(len as int, pos.halfmoves as int),
                forall|j: int| k <= j < len - 1 ==> self.repetition_stack@[j] != current,
            decreases k,
        {
            k -= 1;
            if self.repetition_stack[k] == current {
                return true;
            }
        }
        false
    }

    /// Whether the fifty-move rule applies: a hundred half-moves or more without a capture
    /// or pawn move.
    pub fn is_50_moves(&self, pos: &BoardState) -> (r: bool)
        ensures
            r == (pos.halfmoves >= 100),
    {
        pos.halfmoves >= 100
    }

    // -------------------------------------------------------------------------
    // Repetition stack
    // -------------------------------------------------------------------------

    /// Pushes the hash of a position entered.
    pub fn increase_history(&mut self, hash: u64)
        ensures
            final(self).repetition_stack@ == old(self).repetition_stack@.push(hash),
    {
        self.repetition_stack.push(hash);
    }

    /// Pops the hash of the position left.
    pub fn decrease_history(&mut self)
        ensures
            final(self).repetition_stack@ == old(self).repetition_stack@.drop_last()
                || (old(self).repetition_stack@.len() == 0 && final(self).repetition_stack@.len() == 0),
    {
        self.repetition_stack.pop();
    }

    // -------------------------------------------------------------------------
    // Killer moves
    // -------------------------------------------------------------------------

    /// Records a quiet move that caused a cutoff at `ply`: unless it is already the
    /// first killer, the killers shift down and it becomes the first.
    pub fn store_killer(&mut self, ply: usize, mv: ChessMove)
        requires
            ply < MAX_PLY,
            old(self).killers@.len() == 3 * MAX_PLY,
        ensures
            final(self).same_but_killers(old(self)),
            final(self).killers@ == if old(self).killers@[3 * ply] == Some(mv) {
                old(self).killers@
            } else {
                old(self).killers@.update(3 * ply + 2, old(self).killers@[3 * ply + 1])
                    .update(3 * ply + 1, old(self).killers@[3 * ply]).update(3 * ply, Some(mv))
            },
    {
        let base = 3 * ply;
        if self.killers[base] == Some(mv) {
            return;
        }
        let k1 = self.killers[base + 1];
        let k0 = self.killers[base];
        self.killers.set(base + 2, k1);
        self.killers.set(base + 1, k0);
        self.killers.set(base, Some(mv));
    }

    /// Empties the killer slots of `ply`.
    pub fn clear_killers_at(&mut self, ply: usize)
        requires
            ply < MAX_PLY,
            old(self).killers@.len() == 3 * MAX_PLY,
        ensures
            final(self).same_but_killers(old(self)),
            final(self).killers@ == old(self).killers@.update(3 * ply, None).update(3 * ply + 1, None).update(3 * ply + 2, None),
    {
        let base = 3 * ply;
        self.killers.set(base, None);
        self.killers.set(base + 1, None);
        self.killers.set(base + 2, None);
    }

    /// The killer slots of `ply`.
    pub fn killers_at(&self, ply: usize) -> (r: [Option<ChessMove>; 3])
        requires
            ply < MAX_PLY,
            self.killers@.len() == 3 * MAX_PLY,
        ensures
            r@ == self.killers@.subrange(3 * ply as int, 3 * ply + 3),
    {
        let r = [self.killers[3 * ply], self.killers[3 * ply + 1], self.killers[3 * ply + 2]];
        assert(r@ =~= self.killers@.subrange(3 * ply as int, 3 * ply + 3));
        r
    }

    // -------------------------------------------------------------------------
    // History updates
    // -------------------------------------------------------------------------

    /// Rewards capture `mv` in its capture-history slot, and penalises every other
    /// searched tactical move with `-bonus / cont_hist_malus_scaling`.
    pub fn update_capture_history(&mut self, pos: &BoardState, mv: ChessMove, bonus: i32, tacticals_searched: &[ChessMove])
        requires
            old(self).wf(),
            bonus > i32::MIN,
            has_origin(mv),
            pos.spec_role_at(mv.from()->0) is Some,
            forall|i: int| 0 <= i < tacticals_searched@.len() ==> has_origin(#[trigger] tacticals_searched@[i])
                && pos.spec_role_at(tacticals_searched@[i].from()->0) is Some,
        ensures
            final(self).wf(),
            final(self).capture_history@ == capture_malus_pass(
                gravity_at(old(self).capture_history@, capture_index(*pos, mv), bonus as int),
                *pos, mv,
                rust_div(-bonus as int, old(self).params.cont_hist_malus_scaling as int),
                tacticals_searched@, tacticals_searched@.len() as int),
            final(self).history == old(self).history,
            final(self).continuation_history == old(self).continuation_history,
            final(self).killers == old(self).killers,
            final(self).stack == old(self).stack,
            final(self).params == old(self).params,
            final(self).repetition_stack == old(self).repetition_stack,
            final(self).tt == old(self).tt,
            final(self).nnue == old(self).nnue,
            final(self).network == old(self).network,
            final(self).excluded_move == old(self).excluded_move,
            final(self).lmr_table == old(self).lmr_table,
            final(self).stop_seen == old(self).stop_seen,
            final(self).stats == old(self).stats,
            final(self).same_settings(old(self)),
    {
        let idx = capture_slot(pos, &mv);
        apply_gravity(&mut self.capture_history, idx, bonus);
        let malus: i32 = div_i32(-bonus, self.params.cont_hist_malus_scaling);
        capture_malus(&mut self.capture_history, pos, mv, malus, tacticals_searched);
    }

    /// Rewards quiet `mv` of `side` in the quiet history, and penalises every other
    /// searched quiet with `-bonus / cont_hist_malus_scaling`.
    pub fn update_quiet_history(&mut self, side: usize, mv: ChessMove, bonus: i32, quiets_searched: &[ChessMove])
        requires
            old(self).wf(),
            side <= 1,
            bonus > i32::MIN,
            has_origin(mv),
            forall|i: int| 0 <= i < quiets_searched@.len() ==> has_origin(#[trigger] quiets_searched@[i]),
        ensures
            final(self).wf(),
            final(self).history@ == quiet_malus_pass(
                gravity_at(old(self).history@, history_index(side as int, mv), bonus as int),
                side as int, mv,
                rust_div(-bonus as int, old(self).params.cont_hist_malus_scaling as int),
                quiets_searched@, quiets_searched@.len() as int),
            final(self).capture_history == old(self).capture_history,
            final(self).continuation_history == old(self).continuation_history,
            final(self).killers == old(self).killers,
            final(self).stack == old(self).stack,
            final(self).params == old(self).params,
            final(self).repetition_stack == old(self).repetition_stack,
            final(self).tt == old(self).tt,
            final(self).nnue == old(self).nnue,
            final(self).network == old(self).network,
            final(self).excluded_move == old(self).excluded_move,
            final(self).lmr_table == old(self).lmr_table,
            final(self).stop_seen == old(self).stop_seen,
            final(self).stats == old(self).stats,
            final(self).same_settings(old(self)),
    {
        let idx = history_slot(side, &mv);
        apply_gravity(&mut self.history, idx, bonus);
        let malus: i32 = div_i32(-bonus, self.params.cont_hist_malus_scaling);
        quiet_malus(&mut self.history, side, mv, malus, quiets_searched);
    }

    /// Rewards quiet `mv` after each relevant earlier move, and penalises every other
    /// searched quiet with `-bonus / (2 * cont_hist_malus_scaling)`.
    pub fn update_continuation_history(&mut self, ply: usize, mv: ChessMove, bonus: i32, quiets_searched: &[ChessMove])
        requires
            old(self).wf(),
            ply <= MAX_PLY,
            bonus > i32::MIN,
            mv.wf(),
            forall|i: int| 0 <= i < quiets_searched@.len() ==> (#[trigger] quiets_searched@[i]).wf(),
        ensures
            final(self).wf(),
            final(self).continuation_history@ == continuation_malus(
                continuation_apply(old(self).continuation_history@, ply as int, mv, bonus as int,
                    old(self).stack.moves@, MAX_PLY_CONTINUATION_HISTORY as int),
                ply as int, mv, rust_div(-bonus as int, 2 * old(self).params.cont_hist_malus_scaling as int),
                quiets_searched@, old(self).stack.moves@, quiets_searched@.len() as int),
            final(self).history == old(self).history,
            final(self).capture_history == old(self).capture_history,
            final(self).killers == old(self).killers,
            final(self).stack == old(self).stack,
            final(self).params == old(self).params,
            final(self).repetition_stack == old(self).repetition_stack,
            final(self).tt == old(self).tt,
            final(self).nnue == old(self).nnue,
            final(self).network == old(self).network,
            final(self).excluded_move == old(self).excluded_move,
            final(self).lmr_table == old(self).lmr_table,
            final(self).stop_seen == old(self).stop_seen,
            final(self).stats == old(self).stats,
            final(self).same_settings(old(self)),
    {
        continuation_update(&mut self.continuation_history, &self.stack.moves, ply, mv, bonus);
        let malus: i32 = div_i32(-bonus, 2 * self.params.cont_hist_malus_scaling);
        continuation_malus_loop(&mut self.continuation_history, &self.stack.moves, ply, mv, malus, quiets_searched);
    }

    // -------------------------------------------------------------------------
    // History reads
    // -------------------------------------------------------------------------

    /// Quiet history plus continuation history of a quiet move for the side to move
    /// (zero for a capture).
    pub fn get_quiet_history_score(&self, pos: &BoardState, mv: ChessMove, ply: usize) -> (r: i32)
        requires
            self.wf(),
            ply <= MAX_PLY,
            has_origin(mv),
        ensures
            r == if mv.is_capture() {
                0
            } else {
                self.history@[history_index(pos.turn.repr() as int, mv)] as int
                    + continuation_sum(self.continuation_history@, ply as int, mv, self.stack.moves@,
                        MAX_PLY_CONTINUATION_HISTORY as int)
            },
            -32768 * 5 <= r <= 32767 * 5,
    {
        if mv.is_capture() {
            return 0;
        }
        let side = pos.turn.repr();
        let idx = history_slot(side, &mv);
        let mut score: i32 = self.history[idx] as i32;
        let piece = role_index(mv.role());
        let to = mv.to() as usize;
        let mut i: usize = 0;
        while i < MAX_PLY_CONTINUATION_HISTORY
            invariant
                i <= MAX_PLY_CONTINUATION_HISTORY,
                self.wf(),
                ply <= MAX_PLY,
                mv.wf(),
                piece == role_index(mv.role()),
                to == mv.to(),
                score == self.history@[history_index(side as int, mv)] as int
                    + continuation_sum(self.continuation_history@, ply as int, mv, self.stack.moves@, i as int),
                -32768 * (i + 1) <= score <= 32767 * (i + 1),
            decreases MAX_PLY_CONTINUATION_HISTORY - i,
        {
            if ply > i && ((i + 1) % 2 == 0 || i == 0) {
                if let Some(prev) = self.stack.moves[ply - 1 - i] {
                    assert(self.stack.moves@[ply - 1 - i] matches Some(p) ==> p.wf());
                    let prev_piece = role_index(prev.role());
                    let prev_to = prev.to() as usize;
                    score = score + self.continuation_history[i * 147456 + prev_piece * 24576 + prev_to * 384 + piece * 64 + to] as i32;
                }
            }
            i += 1;
        }
        score
    }

    /// Capture history of a capture (zero for a quiet move).
    pub fn get_capture_history_score(&self, pos: &BoardState, mv: ChessMove) -> (r: i32)
        requires
            self.wf(),
            has_origin(mv),
            pos.spec_role_at(mv.from()->0) is Some,
        ensures
            r == if !mv.is_capture() { 0 } else { self.capture_history@[capture_index(*pos, mv)] as int },
    {
        if !mv.is_capture() {
            return 0;
        }
        let idx = capture_slot(pos, &mv);
        self.capture_history[idx] as i32
    }

    /// Gravity updates of `m`'s continuation entries after each relevant earlier move.
    pub fn update_continuation_value(&mut self, ply: usize, m: ChessMove, bonus: i32)
        requires
            old(self).wf(),
            ply <= MAX_PLY,
            m.wf(),
        ensures
            final(self).wf(),
            final(self).continuation_history@ == continuation_apply(old(self).continuation_history@, ply as int, m,
                bonus as int, old(self).stack.moves@, MAX_PLY_CONTINUATION_HISTORY as int),
            final(self).history == old(self).history,
            final(self).capture_history == old(self).capture_history,
            final(self).killers == old(self).killers,
            final(self).stack == old(self).stack,
            final(self).params == old(self).params,
            final(self).repetition_stack == old(self).repetition_stack,
            final(self).tt == old(self).tt,
            final(self).nnue == old(self).nnue,
            final(self).network == old(self).network,
            final(self).excluded_move == old(self).excluded_move,
            final(self).lmr_table == old(self).lmr_table,
            final(self).stop_seen == old(self).stop_seen,
            final(self).stats == old(self).stats,
            final(self).same_settings(old(self)),
    {
        continuation_update(&mut self.continuation_history, &self.stack.moves, ply, m, bonus);
    }

    /// Whether the static evaluation at `ply` is better than two plies earlier.
    pub fn is_improving(&self, ply: usize) -> (r: bool)
        requires
            self.stack.evals@.len() == MAX_PLY,
            ply < MAX_PLY,
        ensures
            r == (ply >= 2 && self.stack.evals@[ply as int] > self.stack.evals@[ply - 2]),
    {
        if ply < 2 {
            return false;
        }
        self.stack.evals[ply] > self.stack.evals[ply - 2]
    }
}

/// Quiet-history slot of a move for a side.
fn history_slot(side: usize, m: &ChessMove) -> (r: usize)
    requires
        side <= 1,
        has_origin(*m),
    ensures
        r == history_index(side as int, *m),
        r < HISTORY_SIZE,
{
    let from = match m.from() {
        Some(f) => f as usize,
        None => 0,
    };
    side * 4096 + from * 64 + m.to() as usize
}

/// Capture-history slot of a capture.
fn capture_slot(pos: &BoardState, m: &ChessMove) -> (r: usize)
    requires
        has_origin(*m),
        pos.spec_role_at(m.from()->0) is Some,
    ensures
        r == capture_index(*pos, *m),
        r < CAPTURE_HISTORY_SIZE,
{
    let from = match m.from() {
        Some(f) => f,
        None => 0,
    };
    let captured = match pos.role_at(m.to()) {
        Some(r) => role_index(r),
        None => 0,
    };
    let moved = match pos.role_at(from) {
        Some(r) => role_index(r),
        None => 0,
    };
    captured * 384 + (m.to() as usize) * 6 + moved
}

fn capture_malus(table: &mut Vec<i16>, pos: &BoardState, mv: ChessMove, malus: i32, tacticals_searched: &[ChessMove])
    requires
        old(table)@.len() == CAPTURE_HISTORY_SIZE,
        forall|i: int| 0 <= i < tacticals_searched@.len() ==> has_origin(#[trigger] tacticals_searched@[i])
            && pos.spec_role_at(tacticals_searched@[i].from()->0) is Some,
    ensures
        final(table)@ == capture_malus_pass(old(table)@, *pos, mv, malus as int, tacticals_searched@,
            tacticals_searched@.len() as int),
        final(table)@.len() == old(table)@.len(),
{
    let mut i: usize = 0;
    while i < tacticals_searched.len()
        invariant
            i <= tacticals_searched@.len(),
            table@.len() == CAPTURE_HISTORY_SIZE,
            forall|k: int| 0 <= k < tacticals_searched@.len() ==> has_origin(#[trigger] tacticals_searched@[k])
                && pos.spec_role_at(tacticals_searched@[k].from()->0) is Some,
            table@ == capture_malus_pass(old(table)@, *pos, mv, malus as int, tacticals_searched@, i as int),
        decreases tacticals_searched@.len() - i,
    {
        let m = tacticals_searched[i];
        if m != mv {
            let j = capture_slot(pos, &m);
            apply_gravity(table, j, malus);
        }
        i += 1;
    }
}

fn quiet_malus(table: &mut Vec<i16>, side: usize, mv: ChessMove, malus: i32, quiets_searched: &[ChessMove])
    requires
        old(table)@.len() == HISTORY_SIZE,
        side <= 1,
        forall|i: int| 0 <= i < quiets_searched@.len() ==> has_origin(#[trigger] quiets_searched@[i]),
    ensures
        final(table)@ == quiet_malus_pass(old(table)@, side as int, mv, malus as int, quiets_searched@,
            quiets_searched@.len() as int),
        final(table)@.len() == old(table)@.len(),
{
    let mut i: usize = 0;
    while i < quiets_searched.len()
        invariant
            i <= quiets_searched@.len(),
            side <= 1,
            table@.len() == HISTORY_SIZE,
            forall|k: int| 0 <= k < quiets_searched@.len() ==> has_origin(#[trigger] quiets_searched@[k]),
            table@ == quiet_malus_pass(old(table)@, side as int, mv, malus as int, quiets_searched@, i as int),
        decreases quiets_searched@.len() - i,
    {
        let m = quiets_searched[i];
        if m != mv {
            let j = history_slot(side, &m);
            apply_gravity(table, j, malus);
        }
        i += 1;
    }
}

fn continuation_update(table: &mut Vec<i16>, moves: &Vec<Option<ChessMove>>, ply: usize, m: ChessMove, bonus: i32)
    requires
        old(table)@.len() == CONTINUATION_SIZE,
        moves@.len() == MAX_PLY,
        stack_moves_ok(moves@),
        ply <= MAX_PLY,
        m.wf(),
    ensures
        final(table)@ == continuation_apply(old(table)@, ply as int, m, bonus as int, moves@,
            MAX_PLY_CONTINUATION_HISTORY as int),
        final(table)@.len() == CONTINUATION_SIZE,
{
    let piece = role_index(m.role());
    let to = m.to() as usize;
    let mut i: usize = 0;
    while i < MAX_PLY_CONTINUATION_HISTORY
        invariant
            i <= MAX_PLY_CONTINUATION_HISTORY,
            ply <= MAX_PLY,
            m.wf(),
            piece == role_index(m.role()),
            to == m.to(),
            table@.len() == CONTINUATION_SIZE,
            stack_moves_ok(moves@),
            moves@.len() == MAX_PLY,
            table@ == continuation_apply(old(table)@, ply as int, m, bonus as int, moves@, i as int),
        decreases MAX_PLY_CONTINUATION_HISTORY - i,
    {
        if ply > i && ((1 + i) % 2 == 0 || i == 0) {
            if let Some(prev) = moves[ply - 1 - i] {
                assert(moves@[ply - 1 - i] matches Some(p) ==> p.wf());
                let prev_piece = role_index(prev.role());
                let prev_to = prev.to() as usize;
                apply_gravity(table, i * 147456 + prev_piece * 24576 + prev_to * 384 + piece * 64 + to, bonus);
            }
        }
        i += 1;
    }
}

fn continuation_malus_loop(table: &mut Vec<i16>, moves: &Vec<Option<ChessMove>>, ply: usize, mv: ChessMove, malus: i32,
    quiets_searched: &[ChessMove])
    requires
        old(table)@.len() == CONTINUATION_SIZE,
        moves@.len() == MAX_PLY,
        stack_moves_ok(moves@),
        ply <= MAX_PLY,
        forall|k: int| 0 <= k < quiets_searched@.len() ==> (#[trigger] quiets_searched@[k]).wf(),
    ensures
        final(table)@.len() == CONTINUATION_SIZE,
        final(table)@ == continuation_malus(old(table)@, ply as int, mv, malus as int, quiets_searched@, moves@,
            quiets_searched@.len() as int),
{
    let mut i: usize = 0;
    while i < quiets_searched.len()
        invariant
            i <= quiets_searched@.len(),
            ply <= MAX_PLY,
            table@.len() == CONTINUATION_SIZE,
            stack_moves_ok(moves@),
            moves@.len() == MAX_PLY,
            forall|k: int| 0 <= k < quiets_searched@.len() ==> (#[trigger] quiets_searched@[k]).wf(),
            table@ == continuation_malus(old(table)@, ply as int, mv, malus as int, quiets_searched@, moves@, i as int),
        decreases quiets_searched@.len() - i,
    {
        let m = quiets_searched[i];
        if m != mv {
            continuation_update(table, moves, ply, m, malus);
        }
        i += 1;
    }
}

fn apply_gravity(table: &mut Vec<i16>, idx: usize, bonus: i32)
    requires
        idx < old(table)@.len(),
    ensures
        final(table)@ == gravity_at(old(table)@, idx as int, bonus as int),
{
    let mut v = table[idx];
    update_history_value(&mut v, bonus);
    table.set(idx, v);
}

/// A vector of `n` copies of `v`.
fn filled<T: Copy>(n: usize, v: T) -> (r: Vec<T>)
    ensures
        r@.len() == n,
        forall|k: int| 0 <= k < n ==> r@[k] == v,
{
    let mut out: Vec<T> = Vec::new();
    let mut i: usize = 0;
    while i < n
        invariant
            i <= n,
            out@.len() == i,
            forall|k: int| 0 <= k < i ==> out@[k] == v,
        decreases n - i,
    {
        out.push(v);
        i += 1;
    }
    out
}

/// A fresh search context: the clock starts now, there is no node limit, the time
/// limit is `time_limit_ms` (100 ms where none is given), statistics, killers,
/// histories, the per-ply stack and the excluded moves are empty or zero, and the
/// other parts are the ones handed in. `lmr_table` holds the late move reductions
/// by depth and move number, both below 64.
pub fn build_search_context<'a>(
    tt: TranspositionTable,
    params: Params,
    ordering: MoveOrdering,
    network: &'a Network,
    rep_stack: Vec<u64>,
    nnue: NNUEState,
    stop: Arc<AtomicBool>,
    node_count: Arc<AtomicU64>,
    is_main: bool,
    time_limit_ms: Option<u64>,
    lmr_table: Vec<u8>,
) -> (r: SearchContext<'a>)
    requires
        tt.wf(),
        nnue.wf(),
        network.wf(),
        params_ok(params),
        ordering.wf(),
        lmr_table@.len() == 64 * 64,
    ensures
        r.wf(),
        r.tt == tt,
        r.params == params,
        r.ordering == ordering,
        r.network == network,
        r.repetition_stack@ == rep_stack@,
        r.nnue == nnue,
        r.stop == stop,
        r.node_count == node_count,
        r.is_main == is_main,
        r.node_limit == u64::MAX,
        r.time_limit_ms == (match time_limit_ms { Some(t) => t, None => 100 }),
        r.lmr_table@ == lmr_table@,
        !r.stop_seen,
        r.stats == (SearchStats { nodes: 0, depth_sum: 0, depth_samples: 0, seldepth: 0, completed_depth: 0,
            duration_ms: 0, singular_extensions: 0 }),
        forall|k: int| 0 <= k < r.killers@.len() ==> r.killers@[k] is None,
        forall|k: int| 0 <= k < r.history@.len() ==> r.history@[k] == 0,
        forall|k: int| 0 <= k < r.capture_history@.len() ==> r.capture_history@[k] == 0,
        forall|k: int| 0 <= k < r.continuation_history@.len() ==> r.continuation_history@[k] == 0,
        forall|k: int| 0 <= k < MAX_PLY ==> r.stack.moves@[k] is None && r.stack.evals@[k] == 0
            && r.stack.double_exts@[k] == 0 && r.excluded_move@[k] is None,
        forall|k: int| 0 <= k < r.excluded_move@.len() ==> #[trigger] r.excluded_move@[k] is None,
{
    let limit: u64 = match time_limit_ms {
        Some(t) => t,
        None => 100,
    };
    let none_move: Option<ChessMove> = None;
    SearchContext {
        start_time: now(),
        time_limit_ms: limit,
        node_limit: u64::MAX,
        stop,
        node_count,
        is_main,
        params,
        ordering,
        stats: SearchStats::default(),
        repetition_stack: rep_stack,
        tt,
        nnue,
        network,
        killers: filled(3 * MAX_PLY, none_move),
        history: filled(HISTORY_SIZE, 0i16),
        capture_history: filled(CAPTURE_HISTORY_SIZE, 0i16),
        continuation_history: filled(CONTINUATION_SIZE, 0i16),
        stack: Stack {
            moves: filled(MAX_PLY, none_move),
            evals: filled(MAX_PLY, 0i32),
            double_exts: filled(MAX_PLY, 0i32),
        },
        excluded_move: filled(MAX_PLY, none_move),
        lmr_table,
        stop_seen: false,
    }
}

} // verus!
