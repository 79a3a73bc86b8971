//! History heuristics: quiet-move history by side and squares, capture history by
//! victim, square and attacker, and continuation history by the moves played one,
//! two and four plies earlier. Every entry moves toward a bonus by the "gravity"
//! rule, which keeps it within `[-MAX_HISTORY, MAX_HISTORY]`.

use vstd::prelude::*;
use crate::chess::{BoardState, ChessMove, Role, role_index};
use crate::position::Position;
use crate::types::{MAX_HISTORY, MAX_PLY_CONTINUATION_HISTORY, abs, clamp, trunc_div};

verus! {

/// Entry after a gravity update with `bonus`: the bonus is clamped to the history
/// range and the entry is damped in proportion to the bonus's size.
pub open spec fn gravity(v: int, bonus: int) -> int {
    let m = MAX_HISTORY as int;
    let c = clamp(bonus, -m, m);
    clamp(v + c - trunc_div(v * abs(c), m), -m, m)
}

/// An entry after a gravity update always lies within the history range.
pub proof fn lemma_gravity_in_range(v: int, bonus: int)
    ensures
        -MAX_HISTORY <= gravity(v, bonus) <= MAX_HISTORY,
{
}

/// The gravity update of one history entry.
pub fn update_history_value(history_value: &mut i16, bonus: i32)
    ensures
        *final(history_value) as int == gravity(*old(history_value) as int, bonus as int),
{
    let clamped: i32 = if bonus < -MAX_HISTORY {
        -MAX_HISTORY
    } else if bonus > MAX_HISTORY {
        MAX_HISTORY
    } else {
        bonus
    };
    let magnitude: i32 = if clamped < 0 { -clamped } else { clamped };
    let v: i32 = *history_value as i32;
    proof {
        assert(-32768 * 16384 <= v * magnitude <= 32767 * 16384) by (nonlinear_arith)
            requires
                -32768 <= v <= 32767,
                0 <= magnitude <= 16384,
        ;
    }
    let damp: i32 = v * magnitude / MAX_HISTORY;
    let new: i32 = v + clamped - damp;
    let clamped_new: i32 = if new < -MAX_HISTORY {
        -MAX_HISTORY
    } else if new > MAX_HISTORY {
        MAX_HISTORY
    } else {
        new
    };
    *history_value = clamped_new as i16;
}

/// Table after a gravity update of entry `idx` with `bonus`.
pub open spec fn gravity_at(t: Seq<i16>, idx: int, bonus: int) -> Seq<i16> {
    t.update(idx, gravity(t[idx] as int, bonus) as i16)
}

fn apply_gravity(table: &mut Vec<i16>, idx: usize, bonus: i32)
    requires
        idx < old(table)@.len(),
    ensures
        final(table)@ == gravity_at(old(table)@, idx as int, bonus as int),
{
    let mut v = table[idx];
    update_history_value(&mut v, bonus);
    table.set(idx, v);
}

/// Table with every entry halved (rounding toward zero).
pub open spec fn halved(t: Seq<i16>) -> Seq<i16> {
    Seq::new(t.len(), |i: int| trunc_div(t[i] as int, 2) as i16)
}

fn halve_all(table: &mut Vec<i16>)
    ensures
        final(table)@ == halved(old(table)@),
{
    let n = table.len();
    let mut i: usize = 0;
    while i < n
        invariant
            n == table@.len(),
            n == old(table)@.len(),
            i <= n,
            forall|j: int| 0 <= j < i ==> table@[j] == trunc_div(old(table)@[j] as int, 2) as i16,
            forall|j: int| i <= j < n ==> table@[j] == old(table)@[j],
        decreases n - i,
    {
        let v = table[i];
        table.set(i, v / 2);
        i += 1;
    }
    assert(table@ =~= halved(old(table)@));
}

fn zero_all(table: &mut Vec<i16>)
    ensures
        final(table)@.len() == old(table)@.len(),
        forall|j: int| 0 <= j < final(table)@.len() ==> final(table)@[j] == 0,
{
    let n = table.len();
    let mut i: usize = 0;
    while i < n
        invariant
            n == table@.len(),
            i <= n,
            forall|j: int| 0 <= j < i ==> table@[j] == 0,
        decreases n - i,
    {
        table.set(i, 0);
        i += 1;
    }
}

fn zeros(n: usize) -> (r: Vec<i16>)
    ensures
        r@.len() == n,
        forall|j: int| 0 <= j < n ==> r@[j] == 0,
{
    let mut v: Vec<i16> = Vec::new();
    let mut i: usize = 0;
    while i < n
        invariant
            v@.len() == i,
            i <= n,
            forall|j: int| 0 <= j < i ==> v@[j] == 0,
        decreases n - i,
    {
        v.push(0);
        i += 1;
    }
    v
}

// =====================================================================================
// Quiet history
// =====================================================================================

/// Number of quiet-history entries: side (2) x from (64) x to (64).
pub const QUIET_SIZE: usize = 8192;

/// Quiet-history slot of a move for a side (0 black, 1 white).
pub open spec fn quiet_index(side: int, m: ChessMove) -> int {
    side * 4096 + (m.from()->0 as int) * 64 + m.to() as int
}

/// A move that quiet history can index: on-board squares and an origin square.
pub open spec fn indexable(m: ChessMove) -> bool {
    m.wf() && m.from() is Some
}

/// Quiet table after the malus pass over the first `n` searched quiets (every one but `mv`).
pub open spec fn quiet_malus(t: Seq<i16>, side: int, mv: ChessMove, malus: int, quiets: Seq<ChessMove>, n: int) -> Seq<i16>
    decreases n,
{
    if n <= 0 {
        t
    } else {
        let prev = quiet_malus(t, side, mv, malus, quiets, n - 1);
        if quiets[n - 1] != mv {
            gravity_at(prev, quiet_index(side, quiets[n - 1]), -malus)
        } else {
            prev
        }
    }
}

/// History of quiet moves by side, origin and target.
pub struct QuietHistoryTable {
    pub table: Vec<i16>,
}

impl QuietHistoryTable {
    /// Entries as a sequence.
    pub open spec fn entries(&self) -> Seq<i16> {
        self.table@
    }

    /// An all-zero table.
    pub fn new() -> (r: QuietHistoryTable)
        ensures
            r.entries().len() == QUIET_SIZE,
            forall|j: int| 0 <= j < QUIET_SIZE ==> r.entries()[j] == 0,
    {
        QuietHistoryTable { table: zeros(QUIET_SIZE) }
    }

    /// Sets every entry to zero.
    pub fn clear(&mut self)
        ensures
            final(self).entries().len() == old(self).entries().len(),
            forall|j: int| 0 <= j < final(self).entries().len() ==> final(self).entries()[j] == 0,
    {
        zero_all(&mut self.table);
    }

    /// Halves every entry.
    pub fn age_entries(&mut self)
        ensures
            final(self).entries() == halved(old(self).entries()),
    {
        halve_all(&mut self.table);
    }

    /// History score of a move for the side to move.
    pub fn get(&self, pos: &Position, mv: &ChessMove) -> (r: i32)
        requires
            self.entries().len() == QUIET_SIZE,
            indexable(*mv),
        ensures
            r == self.entries()[quiet_index(pos@.turn.repr() as int, *mv)],
    {
        let side = pos.state().turn.repr();
        let from = mv.from().unwrap() as usize;
        let to = mv.to() as usize;
        self.table[side * 4096 + from * 64 + to] as i32
    }

    /// Rewards `mv` with `bonus` and penalises every other searched quiet with `malus`.
    pub fn update(&mut self, pos: &Position, mv: &ChessMove, bonus: i32, malus: i32, quiets_searched: &[ChessMove])
        requires
            old(self).entries().len() == QUIET_SIZE,
            indexable(*mv),
            malus > i32::MIN,
            forall|i: int| 0 <= i < quiets_searched@.len() ==> indexable(#[trigger] quiets_searched@[i]),
        ensures
            final(self).entries() == quiet_malus(
                gravity_at(old(self).entries(), quiet_index(pos@.turn.repr() as int, *mv), bonus as int),
                pos@.turn.repr() as int,
                *mv,
                malus as int,
                quiets_searched@,
                quiets_searched@.len() as int,
            ),
    {
        let side = pos.state().turn.repr();
        let from = mv.from().unwrap() as usize;
        let to = mv.to() as usize;
        apply_gravity(&mut self.table, side * 4096 + from * 64 + to, bonus);
        let ghost start = self.table@;
        let mut i: usize = 0;
        while i < quiets_searched.len()
            invariant
                i <= quiets_searched@.len(),
                self.table@.len() == QUIET_SIZE,
                side == pos@.turn.repr(),
                malus > i32::MIN,
                forall|k: int| 0 <= k < quiets_searched@.len() ==> indexable(#[trigger] quiets_searched@[k]),
                self.table@ == quiet_malus(start, side as int, *mv, malus as int, quiets_searched@, i as int),
            decreases quiets_searched@.len() - i,
        {
            let m = quiets_searched[i];
            if m != *mv {
                let f = m.from().unwrap() as usize;
                let t = m.to() as usize;
                apply_gravity(&mut self.table, side * 4096 + f * 64 + t, -malus);
            }
            i += 1;
        }
    }
}

// =====================================================================================
// Noisy (capture) history
// =====================================================================================

/// Number of capture-history entries: victim (6) x target (64) x attacker (6).
pub const NOISY_SIZE: usize = 2304;

/// Role index of the piece a capture takes: the piece on the target, a pawn if
/// the target is empty (en passant).
pub open spec fn victim_index(s: BoardState, m: ChessMove) -> int {
    match s.spec_role_at(m.to()) {
        Some(r) => role_index(r) as int,
        None => 0,
    }
}

/// Capture-history slot of a move in a position.
pub open spec fn noisy_index(s: BoardState, m: ChessMove) -> int {
    victim_index(s, m) * 384 + (m.to() as int) * 6 + role_index(s.spec_role_at(m.from()->0)->0) as int
}

/// A move whose origin holds a piece, so capture history can index it.
pub open spec fn noisy_indexable(s: BoardState, m: ChessMove) -> bool {
    indexable(m) && s.spec_role_at(m.from()->0) is Some
}

/// Capture table after the malus pass over the first `n` searched captures (every one but `mv`).
pub open spec fn noisy_malus(t: Seq<i16>, s: BoardState, mv: ChessMove, malus: int, noisies: Seq<ChessMove>, n: int) -> Seq<i16>
    decreases n,
{
    if n <= 0 {
        t
    } else {
        let prev = noisy_malus(t, s, mv, malus, noisies, n - 1);
        if noisies[n - 1] != mv {
            gravity_at(prev, noisy_index(s, noisies[n - 1]), -malus)
        } else {
            prev
        }
    }
}

fn noisy_slot(s: &BoardState, m: &ChessMove) -> (r: usize)
    requires
        noisy_indexable(*s, *m),
    ensures
        r == noisy_index(*s, *m),
        r < NOISY_SIZE,
{
    let to = m.to();
    let from = m.from().unwrap();
    let captured = match s.role_at(to) {
        Some(r) => role_index(r),
        None => 0,
    };
    let moved = role_index(s.role_at(from).unwrap());
    captured * 384 + (to as usize) * 6 + moved
}

/// History of captures by victim, target square and attacker.
pub struct NoisyHistoryTable {
    pub table: Vec<i16>,
}

impl NoisyHistoryTable {
    /// Entries as a sequence.
    pub open spec fn entries(&self) -> Seq<i16> {
        self.table@
    }

    /// An all-zero table.
    pub fn new() -> (r: NoisyHistoryTable)
        ensures
            r.entries().len() == NOISY_SIZE,
            forall|j: int| 0 <= j < NOISY_SIZE ==> r.entries()[j] == 0,
    {
        NoisyHistoryTable { table: zeros(NOISY_SIZE) }
    }

    /// Sets every entry to zero.
    pub fn clear(&mut self)
        ensures
            final(self).entries().len() == old(self).entries().len(),
            forall|j: int| 0 <= j < final(self).entries().len() ==> final(self).entries()[j] == 0,
    {
        zero_all(&mut self.table);
    }

    /// Halves every entry.
    pub fn age_entries(&mut self)
        ensures
            final(self).entries() == halved(old(self).entries()),
    {
        halve_all(&mut self.table);
    }

    /// Capture-history score of a move; 0 for a move that captures nothing.
    pub fn get(&self, pos: &Position, mv: &ChessMove) -> (r: i32)
        requires
            self.entries().len() == NOISY_SIZE,
            mv.is_capture() ==> noisy_indexable(pos@, *mv),
        ensures
            r == if mv.is_capture() { self.entries()[noisy_index(pos@, *mv)] as i32 } else { 0 },
    {
        if !mv.is_capture() {
            return 0;
        }
        let idx = noisy_slot(pos.state(), mv);
        self.table[idx] as i32
    }

    /// Rewards capture `mv` with `bonus` and penalises every other searched capture with `malus`.
    pub fn update(&mut self, pos: &Position, mv: &ChessMove, bonus: i32, malus: i32, noisies_searched: &[ChessMove])
        requires
            old(self).entries().len() == NOISY_SIZE,
            noisy_indexable(pos@, *mv),
            malus > i32::MIN,
            forall|i: int| 0 <= i < noisies_searched@.len() ==> noisy_indexable(pos@, #[trigger] noisies_searched@[i]),
        ensures
            final(self).entries() == noisy_malus(
                gravity_at(old(self).entries(), noisy_index(pos@, *mv), bonus as int),
                pos@,
                *mv,
                malus as int,
                noisies_searched@,
                noisies_searched@.len() as int,
            ),
    {
        let s = pos.state();
        apply_gravity(&mut self.table, noisy_slot(s, mv), bonus);
        let ghost start = self.table@;
        let mut i: usize = 0;
        while i < noisies_searched.len()
            invariant
                i <= noisies_searched@.len(),
                self.table@.len() == NOISY_SIZE,
                *s == pos@,
                malus > i32::MIN,
                forall|k: int| 0 <= k < noisies_searched@.len() ==> noisy_indexable(pos@, #[trigger] noisies_searched@[k]),
                self.table@ == noisy_malus(start, pos@, *mv, malus as int, noisies_searched@, i as int),
            decreases noisies_searched@.len() - i,
        {
            let m = noisies_searched[i];
            if m != *mv {
                apply_gravity(&mut self.table, noisy_slot(s, &m), -malus);
            }
            i += 1;
        }
    }
}


// =====================================================================================
// Continuation history
// =====================================================================================

/// Number of continuation-history entries: offset (4) x previous role (6) x previous
/// target (64) x role (6) x target (64).
pub const CONT_SIZE: usize = 589824;

/// Continuation slot for move `m` following `prev` played `i + 1` plies earlier.
pub open spec fn cont_index(i: int, prev: ChessMove, m: ChessMove) -> int {
    i * 147456 + (role_index(prev.role()) as int) * 24576 + (prev.to() as int) * 384
        + (role_index(m.role()) as int) * 64 + m.to() as int
}

/// Whether offset `i` takes part at `ply`: the moves one, two and four plies back.
pub open spec fn cont_offset_used(ply: int, i: int) -> bool {
    ply > i && ((i + 1) % 2 == 0 || i == 0)
}

/// Move played `i + 1` plies before `ply`, if the offset takes part and a move was played.
pub open spec fn cont_prev(moves: Seq<Option<ChessMove>>, ply: int, i: int) -> Option<ChessMove> {
    if cont_offset_used(ply, i) {
        moves[ply - 1 - i]
    } else {
        None
    }
}

/// Sum of the continuation entries for `mv` over the first `n` offsets.
pub open spec fn cont_sum(t: Seq<i16>, mv: ChessMove, ply: int, moves: Seq<Option<ChessMove>>, n: int) -> int
    decreases n,
{
    if n <= 0 {
        0
    } else {
        cont_sum(t, mv, ply, moves, n - 1) + match cont_prev(moves, ply, n - 1) {
            Some(prev) => t[cont_index(n - 1, prev, mv)] as int,
            None => 0,
        }
    }
}

/// Table after gravity updates of `m`'s entries over the first `n` offsets.
pub open spec fn cont_apply(t: Seq<i16>, ply: int, m: ChessMove, bonus: int, moves: Seq<Option<ChessMove>>, n: int) -> Seq<i16>
    decreases n,
{
    if n <= 0 {
        t
    } else {
        let prev_t = cont_apply(t, ply, m, bonus, moves, n - 1);
        match cont_prev(moves, ply, n - 1) {
            Some(prev) => gravity_at(prev_t, cont_index(n - 1, prev, m), bonus),
            None => prev_t,
        }
    }
}

proof fn lemma_cont_apply_len(t: Seq<i16>, ply: int, m: ChessMove, bonus: int, moves: Seq<Option<ChessMove>>, n: int)
    requires
        m.wf(),
        move_stack_ok(moves, ply),
        t.len() == CONT_SIZE,
        n <= MAX_PLY_CONTINUATION_HISTORY,
    ensures
        cont_apply(t, ply, m, bonus, moves, n).len() == CONT_SIZE,
    decreases n,
{
    if n > 0 {
        lemma_cont_apply_len(t, ply, m, bonus, moves, n - 1);
        if let Some(prev) = cont_prev(moves, ply, n - 1) {
            assert(moves[ply - 1 - (n - 1)] matches Some(p) ==> p.wf());
        }
    }
}

/// Table after the malus pass over the first `n` searched quiets (every one but `mv`).
pub open spec fn cont_malus(t: Seq<i16>, ply: int, mv: ChessMove, malus: int, quiets: Seq<ChessMove>, moves: Seq<Option<ChessMove>>, n: int) -> Seq<i16>
    decreases n,
{
    if n <= 0 {
        t
    } else {
        let prev_t = cont_malus(t, ply, mv, malus, quiets, moves, n - 1);
        if quiets[n - 1] != mv {
            cont_apply(prev_t, ply, quiets[n - 1], trunc_div(-malus, 2), moves, MAX_PLY_CONTINUATION_HISTORY as int)
        } else {
            prev_t
        }
    }
}

/// The move stack can be read back `ply` plies and every move on it names on-board squares.
pub open spec fn move_stack_ok(moves: Seq<Option<ChessMove>>, ply: int) -> bool {
    &&& 0 <= ply <= moves.len()
    &&& forall|k: int| 0 <= k < moves.len() ==> (#[trigger] moves[k] matches Some(p) ==> p.wf())
}

/// History of quiet moves by the moves played one, two and four plies earlier.
pub struct ContinuationHistoryTable {
    pub table: Vec<i16>,
}

impl ContinuationHistoryTable {
    /// Entries as a sequence.
    pub open spec fn entries(&self) -> Seq<i16> {
        self.table@
    }

    /// An all-zero table.
    pub fn new() -> (r: ContinuationHistoryTable)
        ensures
            r.entries().len() == CONT_SIZE,
            forall|j: int| 0 <= j < CONT_SIZE ==> r.entries()[j] == 0,
    {
        ContinuationHistoryTable { table: zeros(CONT_SIZE) }
    }

    /// Sets every entry to zero.
    pub fn clear(&mut self)
        ensures
            final(self).entries().len() == old(self).entries().len(),
            forall|j: int| 0 <= j < final(self).entries().len() ==> final(self).entries()[j] == 0,
    {
        zero_all(&mut self.table);
    }

    /// Halves every entry.
    pub fn age_entries(&mut self)
        ensures
            final(self).entries() == halved(old(self).entries()),
    {
        halve_all(&mut self.table);
    }

    /// Sum of the continuation entries for `mv` given the moves played before `ply`
    /// (accumulated in 16 bits, as the table's element type).
    pub fn get(&self, mv: &ChessMove, ply: usize, moves: &[Option<ChessMove>]) -> (r: i32)
        requires
            self.entries().len() == CONT_SIZE,
            mv.wf(),
            move_stack_ok(moves@, ply as int),
            forall|n: int| 0 <= n <= MAX_PLY_CONTINUATION_HISTORY ==> i16::MIN <= #[trigger] cont_sum(self.entries(), *mv, ply as int, moves@, n) <= i16::MAX,
        ensures
            r == cont_sum(self.entries(), *mv, ply as int, moves@, MAX_PLY_CONTINUATION_HISTORY as int),
    {
        let mut score: i16 = 0;
        let to = mv.to() as usize;
        let piece = role_index(mv.role());
        let mut i: usize = 0;
        while i < MAX_PLY_CONTINUATION_HISTORY
            invariant
                i <= MAX_PLY_CONTINUATION_HISTORY,
                self.entries().len() == CONT_SIZE,
                mv.wf(),
                to == mv.to(),
                piece == role_index(mv.role()),
                move_stack_ok(moves@, ply as int),
                forall|n: int| 0 <= n <= MAX_PLY_CONTINUATION_HISTORY ==> i16::MIN <= #[trigger] cont_sum(self.entries(), *mv, ply as int, moves@, n) <= i16::MAX,
                score == cont_sum(self.entries(), *mv, ply as int, moves@, i as int),
            decreases MAX_PLY_CONTINUATION_HISTORY - i,
        {
            assert(i16::MIN <= cont_sum(self.entries(), *mv, ply as int, moves@, i + 1) <= i16::MAX);
            if ply > i && ((i + 1) % 2 == 0 || i == 0) {
                if let Some(prev) = moves[ply - 1 - i] {
                    assert(moves@[ply - 1 - i] matches Some(p) ==> p.wf());
                    let prev_piece = role_index(prev.role());
                    let prev_to = prev.to() as usize;
                    score = score + self.table[i * 147456 + prev_piece * 24576 + prev_to * 384 + piece * 64 + to];
                }
            }
            i += 1;
        }
        score as i32
    }

    fn update_continuation_value(&mut self, ply: usize, m: ChessMove, bonus: i32, moves: &[Option<ChessMove>])
        requires
            old(self).entries().len() == CONT_SIZE,
            m.wf(),
            move_stack_ok(moves@, ply as int),
        ensures
            final(self).entries() == cont_apply(old(self).entries(), ply as int, m, bonus as int, moves@, MAX_PLY_CONTINUATION_HISTORY as int),
    {
        let piece = role_index(m.role());
        let to = m.to() as usize;
        let mut i: usize = 0;
        while i < MAX_PLY_CONTINUATION_HISTORY
            invariant
                i <= MAX_PLY_CONTINUATION_HISTORY,
                self.entries().len() == CONT_SIZE,
                m.wf(),
                to == m.to(),
                piece == role_index(m.role()),
                move_stack_ok(moves@, ply as int),
                self.entries() == cont_apply(old(self).entries(), ply as int, m, bonus as int, moves@, i as int),
            decreases MAX_PLY_CONTINUATION_HISTORY - i,
        {
            if ply > i && ((1 + i) % 2 == 0 || i == 0) {
                if let Some(prev) = moves[ply - 1 - i] {
                    assert(moves@[ply - 1 - i] matches Some(p) ==> p.wf());
                    let prev_piece = role_index(prev.role());
                    let prev_to = prev.to() as usize;
                    apply_gravity(&mut self.table, i * 147456 + prev_piece * 24576 + prev_to * 384 + piece * 64 + to, bonus);
                }
            }
            i += 1;
        }
    }

    /// Rewards quiet `mv` with `bonus` after each relevant earlier move, and penalises every
    /// other searched quiet with half of `malus`.
    pub fn update(&mut self, ply: usize, mv: &ChessMove, bonus: i32, malus: i32, quiets_searched: &[ChessMove], moves: &[Option<ChessMove>])
        requires
            old(self).entries().len() == CONT_SIZE,
            mv.wf(),
            malus > i32::MIN,
            move_stack_ok(moves@, ply as int),
            forall|i: int| 0 <= i < quiets_searched@.len() ==> (#[trigger] quiets_searched@[i]).wf(),
        ensures
            final(self).entries() == cont_malus(
                cont_apply(old(self).entries(), ply as int, *mv, bonus as int, moves@, MAX_PLY_CONTINUATION_HISTORY as int),
                ply as int,
                *mv,
                malus as int,
                quiets_searched@,
                moves@,
                quiets_searched@.len() as int,
            ),
    {
        self.update_continuation_value(ply, *mv, bonus, moves);
        proof {
            lemma_cont_apply_len(old(self).entries(), ply as int, *mv, bonus as int, moves@, MAX_PLY_CONTINUATION_HISTORY as int);
        }
        let ghost start = self.entries();
        let mut i: usize = 0;
        while i < quiets_searched.len()
            invariant
                i <= quiets_searched@.len(),
                self.entries().len() == CONT_SIZE,
                malus > i32::MIN,
                move_stack_ok(moves@, ply as int),
                forall|k: int| 0 <= k < quiets_searched@.len() ==> (#[trigger] quiets_searched@[k]).wf(),
                self.entries() == cont_malus(start, ply as int, *mv, malus as int, quiets_searched@, moves@, i as int),
            decreases quiets_searched@.len() - i,
        {
            let m = quiets_searched[i];
            assert(quiets_searched@[i as int].wf());
            if m != *mv {
                let ghost before = self.entries();
                let half: i32 = -malus / 2;
                self.update_continuation_value(ply, m, half, moves);
                proof {
                    lemma_cont_apply_len(before, ply as int, m, half as int, moves@, MAX_PLY_CONTINUATION_HISTORY as int);
                }
            }
            i += 1;
        }
    }
}

// =====================================================================================
// All history tables
// =====================================================================================

/// The quiet, capture and continuation history tables of a search.
pub struct HistoryTables {
    pub quiet: QuietHistoryTable,
    pub noisy: NoisyHistoryTable,
    pub continuation: ContinuationHistoryTable,
}

impl HistoryTables {
    /// Whether each table has its full size.
    pub open spec fn wf(&self) -> bool {
        &&& self.quiet.entries().len() == QUIET_SIZE
        &&& self.noisy.entries().len() == NOISY_SIZE
        &&& self.continuation.entries().len() == CONT_SIZE
    }

    /// All-zero tables.
    pub fn new() -> (r: HistoryTables)
        ensures
            r.wf(),
            forall|j: int| 0 <= j < QUIET_SIZE ==> r.quiet.entries()[j] == 0,
            forall|j: int| 0 <= j < NOISY_SIZE ==> r.noisy.entries()[j] == 0,
            forall|j: int| 0 <= j < CONT_SIZE ==> r.continuation.entries()[j] == 0,
    {
        HistoryTables {
            quiet: QuietHistoryTable::new(),
            noisy: NoisyHistoryTable::new(),
            continuation: ContinuationHistoryTable::new(),
        }
    }

    /// Sets every entry of every table to zero.
    pub fn clear(&mut self)
        ensures
            final(self).quiet.entries().len() == old(self).quiet.entries().len(),
            final(self).noisy.entries().len() == old(self).noisy.entries().len(),
            final(self).continuation.entries().len() == old(self).continuation.entries().len(),
            forall|j: int| 0 <= j < final(self).quiet.entries().len() ==> final(self).quiet.entries()[j] == 0,
            forall|j: int| 0 <= j < final(self).noisy.entries().len() ==> final(self).noisy.entries()[j] == 0,
            forall|j: int| 0 <= j < final(self).continuation.entries().len() ==> final(self).continuation.entries()[j] == 0,
    {
        self.quiet.clear();
        self.noisy.clear();
        self.continuation.clear();
    }

    /// Halves every entry of every table.
    pub fn age_entries(&mut self)
        ensures
            final(self).quiet.entries() == halved(old(self).quiet.entries()),
            final(self).noisy.entries() == halved(old(self).noisy.entries()),
            final(self).continuation.entries() == halved(old(self).continuation.entries()),
    {
        self.quiet.age_entries();
        self.noisy.age_entries();
        self.continuation.age_entries();
    }
}

} // verus!
