//! Correction history: per side to move and structure key, a running average of
//! how far the static evaluation missed the search score, used to correct later
//! static evaluations of positions with the same structure.

use vstd::prelude::*;
use core::marker::PhantomData;
use crate::hash::{spec_king_non_pawnhash, spec_pawnhash};
use crate::position::Position;
use crate::chess::BoardState;
use crate::types::{clamp, trunc_div};

verus! {

/// Number of keys per side.
pub const SIZE: usize = 16384;
/// Fixed-point factor of stored corrections.
pub const GRAIN: i32 = 256;
/// Denominator of the update weights.
pub const SCALE: i32 = 256;
/// Largest stored correction (32 centipawns).
pub const MAX: i32 = 8192;

/// How a table keys a position.
pub trait CorrHistKey {
    /// Key of a position.
    spec fn spec_key(s: BoardState) -> int;

    /// Key of a position, below `SIZE`.
    fn key(pos: &Position) -> (r: usize)
        requires
            pos@.wf(),
        ensures
            r == Self::spec_key(pos@),
            r < SIZE;
}

/// Keys positions by their pawn structure.
#[derive(Clone, Copy)]
pub struct PawnKey;

impl CorrHistKey for PawnKey {
    open spec fn spec_key(s: BoardState) -> int {
        ((spec_pawnhash(s) as usize) % (SIZE as usize)) as int
    }

    fn key(pos: &Position) -> (r: usize) {
        let hash = crate::hash::Hash::pawnhash(pos);
        hash.0 as usize % SIZE
    }
}

/// Keys positions by their non-pawn pieces and king buckets.
#[derive(Clone, Copy)]
pub struct MaterialKey;

impl CorrHistKey for MaterialKey {
    open spec fn spec_key(s: BoardState) -> int {
        ((spec_king_non_pawnhash(s) as usize) % (SIZE as usize)) as int
    }

    fn key(pos: &Position) -> (r: usize) {
        let hash = crate::hash::Hash::king_non_pawnhash(pos);
        hash.0 as usize % SIZE
    }
}

/// Stored correction after folding in `eval_diff` learned at `depth`: a weighted
/// average with weight `min(16, depth + 1) / 256`, clamped to `[-MAX, MAX]`.
pub open spec fn corrected_entry(entry: int, depth: int, eval_diff: int) -> int {
    let w = if 16 < depth + 1 { 16 } else { depth + 1 };
    clamp(trunc_div(entry * (SCALE - w) + eval_diff * GRAIN * w, SCALE as int), -MAX as int, MAX as int)
}

/// The update's intermediate values fit in 32 bits.
pub open spec fn update_fits(entry: int, depth: int, eval_diff: int) -> bool {
    let w = if 16 < depth + 1 { 16 } else { depth + 1 };
    &&& depth < i32::MAX
    &&& i32::MIN <= eval_diff * GRAIN <= i32::MAX
    &&& i32::MIN <= SCALE - w <= i32::MAX
    &&& i32::MIN <= entry * (SCALE - w) <= i32::MAX
    &&& i32::MIN <= eval_diff * GRAIN * w <= i32::MAX
    &&& i32::MIN <= entry * (SCALE - w) + eval_diff * GRAIN * w <= i32::MAX
}

/// Correction history keyed by `K`: `[side][key]` of fixed-point corrections.
pub struct CorrectionHistoryTable<K: CorrHistKey> {
    table: Vec<i32>,
    _marker: PhantomData<K>,
}

impl<K: CorrHistKey> CorrectionHistoryTable<K> {
    /// Entries as a sequence, side-major (0 black, 1 white).
    pub closed spec fn entries(&self) -> Seq<i32> {
        self.table@
    }

    /// Full size, and every entry within `[-MAX, MAX]`.
    pub open spec fn wf(&self) -> bool {
        &&& self.entries().len() == 2 * SIZE
        &&& forall|i: int| 0 <= i < self.entries().len() ==> -MAX <= #[trigger] self.entries()[i] <= MAX
    }

    /// Slot of a position: side to move, then key.
    pub open spec fn slot(s: BoardState) -> int {
        (s.turn.repr() as int) * (SIZE as int) + K::spec_key(s)
    }

    /// An all-zero table.
    pub fn new() -> (r: Self)
        ensures
            r.wf(),
            forall|i: int| 0 <= i < 2 * SIZE ==> r.entries()[i] == 0,
    {
        let mut table: Vec<i32> = Vec::new();
        let mut i: usize = 0;
        while i < 2 * SIZE
            invariant
                i <= 2 * SIZE,
                table@.len() == i,
                forall|j: int| 0 <= j < i ==> table@[j] == 0,
            decreases 2 * SIZE - i,
        {
            table.push(0);
            i += 1;
        }
        CorrectionHistoryTable { table, _marker: PhantomData }
    }

    /// Halves every entry.
    pub fn age_entries(&mut self)
        requires
            old(self).wf(),
        ensures
            final(self).wf(),
            forall|i: int| 0 <= i < 2 * SIZE ==> final(self).entries()[i] == trunc_div(old(self).entries()[i] as int, 2),
    {
        let n = self.table.len();
        let mut i: usize = 0;
        while i < n
            invariant
                n == 2 * SIZE,
                self.table@.len() == n,
                old(self).wf(),
                i <= n,
                forall|j: int| 0 <= j < i ==> self.table@[j] == trunc_div(old(self).table@[j] as int, 2),
                forall|j: int| i <= j < n ==> self.table@[j] == old(self).table@[j],
            decreases n - i,
        {
            let v = self.table[i];
            self.table.set(i, v / 2);
            i += 1;
        }
    }

    /// Sets every entry to zero.
    pub fn clear(&mut self)
        requires
            old(self).wf(),
        ensures
            final(self).wf(),
            forall|i: int| 0 <= i < 2 * SIZE ==> final(self).entries()[i] == 0,
    {
        let n = self.table.len();
        let mut i: usize = 0;
        while i < n
            invariant
                n == 2 * SIZE,
                self.table@.len() == n,
                i <= n,
                forall|j: int| 0 <= j < i ==> self.table@[j] == 0,
            decreases n - i,
        {
            self.table.set(i, 0);
            i += 1;
        }
    }

    /// Folds the difference between search score and static evaluation at `depth`
    /// into the entry of the position.
    pub fn update_correction_history(&mut self, pos: &Position, depth: i32, eval_diff: i32)
        requires
            old(self).wf(),
            pos@.wf(),
            update_fits(old(self).entries()[Self::slot(pos@)] as int, depth as int, eval_diff as int),
        ensures
            final(self).wf(),
            final(self).entries() == old(self).entries().update(
                Self::slot(pos@),
                corrected_entry(old(self).entries()[Self::slot(pos@)] as int, depth as int, eval_diff as int) as i32,
            ),
    {
        let idx = pos.state().turn.repr() * SIZE + K::key(pos);
        let entry = self.table[idx];
        let scaled_diff = eval_diff * GRAIN;
        let new_weight: i32 = if 16 < depth + 1 { 16 } else { depth + 1 };
        let update = entry * (SCALE - new_weight) + scaled_diff * new_weight;
        let q = update / SCALE;
        let v: i32 = if q < -MAX { -MAX } else if q > MAX { MAX } else { q };
        self.table.set(idx, v);
    }

    /// Correction for the position, in centipawns.
    pub fn correct_evaluation(&self, pos: &Position) -> (r: i32)
        requires
            self.wf(),
            pos@.wf(),
        ensures
            r == trunc_div(self.entries()[Self::slot(pos@)] as int, GRAIN as int),
    {
        let idx = pos.state().turn.repr() * SIZE + K::key(pos);
        self.table[idx] / GRAIN
    }
}

/// Stored corrections stay within `[-MAX, MAX]` whatever is folded in.
pub proof fn lemma_corrected_entry_in_range(entry: int, depth: int, eval_diff: int)
    ensures
        -MAX <= corrected_entry(entry, depth, eval_diff) <= MAX,
{
}

} // verus!
