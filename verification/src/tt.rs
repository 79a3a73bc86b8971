//! Transposition table: fixed-size, direct-mapped, with each slot packed into
//! two 64-bit words (the key is stored xor-ed with the data word so that a torn
//! or foreign slot is rejected on load).

use vstd::prelude::*;
use crate::chess::{ChessMove, Role, role_from_index, role_index};

verus! {

/// Scores beyond this magnitude are mate scores and are stored relative to the node.
pub const MATE_THRESHOLD: i32 = 29000;

// ---------------------------------------------------------------------------
// Bound
// ---------------------------------------------------------------------------

/// Kind of bound a stored score represents.
#[derive(Clone, Copy, PartialEq, Eq, Debug, Structural)]
pub enum Bound {
    Exact,
    Lower,
    Upper,
}

/// Two-bit code of a bound.
pub open spec fn bound_code(b: Bound) -> u8 {
    match b {
        Bound::Exact => 0u8,
        Bound::Lower => 1u8,
        Bound::Upper => 2u8,
    }
}

/// Bound named by the low two bits of a code (3 reads as `Upper`).
pub open spec fn bound_of_code(v: u8) -> Bound {
    if v & 3 == 0 {
        Bound::Exact
    } else if v & 3 == 1 {
        Bound::Lower
    } else {
        Bound::Upper
    }
}

impl Bound {
    fn from_u8(v: u8) -> (r: Bound)
        ensures
            r == bound_of_code(v),
    {
        let low = v & 0b11;
        if low == 0 {
            Bound::Exact
        } else if low == 1 {
            Bound::Lower
        } else {
            Bound::Upper
        }
    }

    fn code(self) -> (r: u8)
        ensures
            r == bound_code(self),
    {
        match self {
            Bound::Exact => 0,
            Bound::Lower => 1,
            Bound::Upper => 2,
        }
    }
}

// ---------------------------------------------------------------------------
// Mate score adjustment
// ---------------------------------------------------------------------------

/// Mate scores are stored as distance from the stored node rather than from the root.
pub open spec fn spec_score_to_tt(score: int, ply: int) -> int {
    if score > MATE_THRESHOLD {
        score + ply
    } else if score < -MATE_THRESHOLD {
        score - ply
    } else {
        score
    }
}

/// Inverse adjustment applied when a stored score is read back at `ply`.
pub open spec fn spec_score_from_tt(score: int, ply: int) -> int {
    if score > MATE_THRESHOLD {
        score - ply
    } else if score < -MATE_THRESHOLD {
        score + ply
    } else {
        score
    }
}

/// Converts a search score at `ply` into the form stored in the table.
pub fn score_to_tt(score: i32, ply: usize) -> (r: i32)
    requires
        ply <= i32::MAX,
        i32::MIN <= spec_score_to_tt(score as int, ply as int) <= i32::MAX,
    ensures
        r == spec_score_to_tt(score as int, ply as int),
{
    if score > MATE_THRESHOLD {
        score + ply as i32
    } else if score < -MATE_THRESHOLD {
        score - ply as i32
    } else {
        score
    }
}

/// Converts a stored score back into a search score at `ply`.
pub fn score_from_tt(score: i32, ply: usize) -> (r: i32)
    requires
        ply <= i32::MAX,
        i32::MIN <= spec_score_from_tt(score as int, ply as int) <= i32::MAX,
    ensures
        r == spec_score_from_tt(score as int, ply as int),
{
    if score > MATE_THRESHOLD {
        score - ply as i32
    } else if score < -MATE_THRESHOLD {
        score + ply as i32
    } else {
        score
    }
}

/// Reading a stored score back at the ply it was stored from gives the score back.
pub proof fn lemma_score_tt_roundtrip(score: int, ply: int)
    requires
        0 <= ply,
    ensures
        spec_score_from_tt(spec_score_to_tt(score, ply), ply) == score,
{
}

// ---------------------------------------------------------------------------
// TTEntry
// ---------------------------------------------------------------------------

/// A decoded table entry.
#[derive(Clone, Copy, PartialEq, Eq, Debug, Structural)]
pub struct TTEntry {
    pub key: u64,
    pub depth: u8,
    pub age: u8,
    pub score: i32,
    pub eval: i32,
    pub bound: Bound,
    pub best_move: Option<ChessMove>,
}

/// Score an entry yields for a search of `depth` with window `(alpha, beta)` at `ply`.
pub open spec fn spec_try_score(e: TTEntry, depth: int, alpha: int, beta: int, ply: int) -> Option<int> {
    if e.depth >= depth {
        let score = spec_score_from_tt(e.score as int, ply);
        match e.bound {
            Bound::Exact => Some(score),
            Bound::Lower => if score >= beta { Some(beta) } else { None },
            Bound::Upper => if score <= alpha { Some(alpha) } else { None },
        }
    } else {
        None
    }
}

impl TTEntry {
    /// The score usable as a cutoff for this search, if the entry is deep enough and
    /// its bound is decisive for the window.
    pub fn try_score(&self, depth: usize, alpha: i32, beta: i32, ply: usize) -> (r: Option<i32>)
        requires
            ply <= i32::MAX,
            i32::MIN <= spec_score_from_tt(self.score as int, ply as int) <= i32::MAX,
        ensures
            r matches Some(v) ==> spec_try_score(*self, depth as int, alpha as int, beta as int, ply as int) == Some(v as int),
            r is None ==> spec_try_score(*self, depth as int, alpha as int, beta as int, ply as int) is None,
    {
        if self.depth as usize >= depth {
            let score = score_from_tt(self.score, ply);
            match self.bound {
                Bound::Exact => {
                    return Some(score);
                },
                Bound::Lower => {
                    if score >= beta {
                        return Some(beta);
                    }
                },
                Bound::Upper => {
                    if score <= alpha {
                        return Some(alpha);
                    }
                },
            }
        }
        None
    }
}


// ---------------------------------------------------------------------------
// Move encoding
// ---------------------------------------------------------------------------
//
// A code is `from(6) | to(6) | extra(2) | kind(2)`, low bits first, 0 meaning no move.
// Kind 0 is a normal move, whose extra names the promotion (0 none, 1 queen, 2 rook,
// 3 bishop); kind 1 is an en passant capture; kind 2 is castling (king square, rook
// square); kind 3 is a knight promotion when its origin lies off the first rank, and a
// drop otherwise, the origin field then holding the dropped role.

/// Code made of its four fields.
pub open spec fn move_code(from: u8, to: u8, extra: u16, kind: u16) -> u16 {
    (from as u16) | ((to as u16) << 6u16) | (extra << 12u16) | (kind << 14u16)
}

/// Extra field of a normal move that is not a knight promotion.
pub open spec fn promo_code(p: Option<Role>) -> u16 {
    match p {
        Some(Role::Queen) => 1u16,
        Some(Role::Rook) => 2u16,
        Some(Role::Bishop) => 3u16,
        _ => 0u16,
    }
}

/// Promotion named by the extra field of a normal move.
pub open spec fn promo_of_code(c: u16) -> Option<Role> {
    if c == 1 {
        Some(Role::Queen)
    } else if c == 2 {
        Some(Role::Rook)
    } else if c == 3 {
        Some(Role::Bishop)
    } else {
        None
    }
}

/// 16-bit code of a move; 0 encodes no move.
pub open spec fn spec_encode_move(mv: Option<ChessMove>) -> u16 {
    match mv {
        None => 0u16,
        Some(ChessMove::Normal { from, to, promotion, .. }) =>
            if promotion == Some(Role::Knight) {
                move_code(from, to, 0, 3)
            } else {
                move_code(from, to, promo_code(promotion), 0)
            },
        Some(ChessMove::EnPassant { from, to }) => move_code(from, to, 0, 1),
        Some(ChessMove::Castle { king, rook }) => move_code(king, rook, 0, 2),
        Some(ChessMove::Put { role, to }) => move_code(role_index(role) as u8, to, 0, 3),
    }
}

fn make_code(from: u8, to: u8, extra: u16, kind: u16) -> (r: u16)
    requires
        extra < 4,
        kind < 4,
    ensures
        r == move_code(from, to, extra, kind),
{
    (from as u16) | ((to as u16) << 6u16) | (extra << 12u16) | (kind << 14u16)
}

/// Packs a move into 16 bits (0 = no move).
pub fn encode_move(mv: Option<ChessMove>) -> (r: u16)
    ensures
        r == spec_encode_move(mv),
{
    match mv {
        None => 0,
        Some(ChessMove::Normal { from, to, promotion, .. }) => {
            match promotion {
                Some(Role::Knight) => make_code(from, to, 0, 3),
                Some(Role::Queen) => make_code(from, to, 1, 0),
                Some(Role::Rook) => make_code(from, to, 2, 0),
                Some(Role::Bishop) => make_code(from, to, 3, 0),
                _ => make_code(from, to, 0, 0),
            }
        },
        Some(ChessMove::EnPassant { from, to }) => make_code(from, to, 0, 1),
        Some(ChessMove::Castle { king, rook }) => make_code(king, rook, 0, 2),
        Some(ChessMove::Put { role, to }) => make_code(role_index(role) as u8, to, 0, 3),
    }
}

/// Move named by a code, with the moving role and capture left as placeholders.
pub open spec fn spec_decode_move_partial(encoded: u16) -> Option<ChessMove> {
    if encoded == 0 {
        None
    } else {
        let from = (encoded & 0x3f) as u8;
        let to = ((encoded >> 6u16) & 0x3f) as u8;
        let extra = (encoded >> 12u16) & 0x3;
        let kind = (encoded >> 14u16) & 0x3;
        if kind == 0 {
            Some(ChessMove::Normal { role: Role::Pawn, from, capture: None, to, promotion: promo_of_code(extra) })
        } else if kind == 1 {
            Some(ChessMove::EnPassant { from, to })
        } else if kind == 2 {
            Some(ChessMove::Castle { king: from, rook: to })
        } else if from >= 8 {
            Some(ChessMove::Normal { role: Role::Pawn, from, capture: None, to, promotion: Some(Role::Knight) })
        } else {
            Some(ChessMove::Put { role: role_of_index_or_pawn(from as int), to })
        }
    }
}

/// Role at a table index, defaulting to the pawn.
pub open spec fn role_of_index_or_pawn(i: int) -> Role {
    if i == 1 {
        Role::Knight
    } else if i == 2 {
        Role::Bishop
    } else if i == 3 {
        Role::Rook
    } else if i == 4 {
        Role::Queen
    } else if i == 5 {
        Role::King
    } else {
        Role::Pawn
    }
}

fn role_or_pawn(idx: usize) -> (r: Role)
    ensures
        r == role_of_index_or_pawn(idx as int),
{
    match role_from_index(idx) {
        Some(r) => r,
        None => Role::Pawn,
    }
}

/// Unpacks a code into a move whose moving role and capture are placeholders;
/// `validate_move` recovers the full move from the legal moves.
pub fn decode_move_partial(encoded: u16) -> (r: Option<ChessMove>)
    ensures
        r == spec_decode_move_partial(encoded),
{
    if encoded == 0 {
        return None;
    }
    let from = (encoded & 0x3f) as u8;
    let to = ((encoded >> 6u16) & 0x3f) as u8;
    let extra = (encoded >> 12u16) & 0x3;
    let kind = (encoded >> 14u16) & 0x3;
    if kind == 0 {
        let promotion = if extra == 1 {
            Some(Role::Queen)
        } else if extra == 2 {
            Some(Role::Rook)
        } else if extra == 3 {
            Some(Role::Bishop)
        } else {
            None
        };
        Some(ChessMove::Normal { role: Role::Pawn, from, capture: None, to, promotion })
    } else if kind == 1 {
        Some(ChessMove::EnPassant { from, to })
    } else if kind == 2 {
        Some(ChessMove::Castle { king: from, rook: to })
    } else if from >= 8 {
        Some(ChessMove::Normal { role: Role::Pawn, from, capture: None, to, promotion: Some(Role::Knight) })
    } else {
        Some(ChessMove::Put { role: role_or_pawn(from as usize), to })
    }
}

/// Whether a legal move is one that a code names: its own code is that code.
pub open spec fn code_matches(encoded: u16, mv: ChessMove) -> bool {
    spec_encode_move(Some(mv)) == encoded
}

/// `Some` of the first move of `legal` that a code names, if there is one.
pub open spec fn spec_validate_move(encoded: u16, legal: Seq<ChessMove>) -> Option<ChessMove>
    decreases legal.len(),
{
    if encoded == 0 || legal.len() == 0 {
        None
    } else if code_matches(encoded, legal[0]) {
        Some(legal[0])
    } else {
        spec_validate_move(encoded, legal.drop_first())
    }
}

/// Recovers the full legal move that a code names: the first of `legal_moves` whose
/// code it is.
pub fn validate_move(encoded: u16, legal_moves: &[ChessMove]) -> (r: Option<ChessMove>)
    ensures
        r == spec_validate_move(encoded, legal_moves@),
{
    if encoded == 0 {
        return None;
    }
    let mut i: usize = 0;
    proof {
        assert(legal_moves@.skip(0) =~= legal_moves@);
    }
    while i < legal_moves.len()
        invariant
            0 <= i <= legal_moves@.len(),
            encoded != 0,
            spec_validate_move(encoded, legal_moves@) == spec_validate_move(encoded, legal_moves@.skip(i as int)),
        decreases legal_moves@.len() - i,
    {
        proof {
            assert(legal_moves@.skip(i as int).drop_first() =~= legal_moves@.skip(i + 1));
        }
        if encode_move(Some(legal_moves[i])) == encoded {
            return Some(legal_moves[i]);
        }
        i += 1;
    }
    proof {
        assert(legal_moves@.skip(i as int).len() == 0);
    }
    None
}

/// The move a code names is one of the moves it was looked up in, and has that code.
pub proof fn lemma_validate_in_list(encoded: u16, legal: Seq<ChessMove>)
    ensures
        spec_validate_move(encoded, legal) matches Some(m) ==> legal.contains(m) && code_matches(encoded, m),
    decreases legal.len(),
{
    if encoded == 0 || legal.len() == 0 {
    } else if code_matches(encoded, legal[0]) {
        assert(legal[0] == legal[0]);
    } else {
        lemma_validate_in_list(encoded, legal.drop_first());
        if let Some(m) = spec_validate_move(encoded, legal) {
            let k = choose|k: int| 0 <= k < legal.drop_first().len() && legal.drop_first()[k] == m;
            assert(legal[k + 1] == m);
        }
    }
}

/// A non-zero code of a move in the list is always found again in that list.
pub proof fn lemma_validate_finds(mv: ChessMove, legal: Seq<ChessMove>)
    requires
        legal.contains(mv),
        spec_encode_move(Some(mv)) != 0,
    ensures
        spec_validate_move(spec_encode_move(Some(mv)), legal) is Some,
    decreases legal.len(),
{
    let c = spec_encode_move(Some(mv));
    if !code_matches(c, legal[0]) {
        assert(legal[0] != mv);
        let k = choose|k: int| 0 <= k < legal.len() && legal[k] == mv;
        assert(legal.drop_first()[k - 1] == mv);
        lemma_validate_finds(mv, legal.drop_first());
    }
}

/// The four fields of a code read back as written.
pub proof fn lemma_move_code_fields(from: u8, to: u8, extra: u16, kind: u16)
    requires
        from < 64,
        to < 64,
        extra < 4,
        kind < 4,
    ensures
        move_code(from, to, extra, kind) & 0x3f == from as u16,
        (move_code(from, to, extra, kind) >> 6u16) & 0x3f == to as u16,
        (move_code(from, to, extra, kind) >> 12u16) & 0x3 == extra,
        (move_code(from, to, extra, kind) >> 14u16) & 0x3 == kind,
        move_code(from, to, extra, kind) == 0 <==> (from == 0 && to == 0 && extra == 0 && kind == 0),
{
    let c = move_code(from, to, extra, kind);
    assert(c & 0x3f == from as u16 && (c >> 6u16) & 0x3f == to as u16 && (c >> 12u16) & 0x3 == extra
        && (c >> 14u16) & 0x3 == kind && (c == 0 <==> (from == 0 && to == 0 && extra == 0 && kind == 0))) by (bit_vector)
        requires
            from < 64,
            to < 64,
            extra < 4,
            kind < 4,
            c == (from as u16) | ((to as u16) << 6u16) | (extra << 12u16) | (kind << 14u16),
    ;
}

/// Every move of standard chess survives the trip through the table: decoding its
/// code and encoding the result gives the same code. (A knight promotion starts on
/// the second or seventh rank, never on the first.)
pub proof fn lemma_move_code_roundtrip(mv: ChessMove)
    requires
        mv.wf(),
        mv matches ChessMove::Normal { from, promotion, .. } ==> (promotion == Some(Role::Knight) ==> from >= 8),
    ensures
        spec_encode_move(spec_decode_move_partial(spec_encode_move(Some(mv)))) == spec_encode_move(Some(mv)),
{
    match mv {
        ChessMove::Normal { from, to, promotion, .. } => {
            if promotion == Some(Role::Knight) {
                lemma_move_code_fields(from, to, 0, 3);
            } else {
                lemma_move_code_fields(from, to, promo_code(promotion), 0);
                assert(promo_code(promo_of_code(promo_code(promotion))) == promo_code(promotion));
            }
        },
        ChessMove::EnPassant { from, to } => {
            lemma_move_code_fields(from, to, 0, 1);
        },
        ChessMove::Castle { king, rook } => {
            lemma_move_code_fields(king, rook, 0, 2);
        },
        ChessMove::Put { role, to } => {
            lemma_move_code_fields(role_index(role) as u8, to, 0, 3);
            assert(role_of_index_or_pawn(role_index(role) as u8 as int) == role);
        },
    }
}


// ---------------------------------------------------------------------------
// Packed slot
// ---------------------------------------------------------------------------

/// Data word of a slot: score (16 bits) | eval (16) | move (16) | depth (8) | info (8),
/// low bits first; info holds `age << 3 | bound`.
pub open spec fn pack_data(score: u16, eval: u16, mv: u16, depth: u8, info: u8) -> u64 {
    (score as u64) | ((eval as u64) << 16u64) | ((mv as u64) << 32u64) | ((depth as u64) << 48u64) | ((info as u64) << 56u64)
}

pub open spec fn data_score(d: u64) -> u16 {
    (d & 0xffff) as u16
}

pub open spec fn data_eval(d: u64) -> u16 {
    ((d >> 16u64) & 0xffff) as u16
}

pub open spec fn data_move(d: u64) -> u16 {
    ((d >> 32u64) & 0xffff) as u16
}

pub open spec fn data_depth(d: u64) -> u8 {
    ((d >> 48u64) & 0xff) as u8
}

pub open spec fn data_info(d: u64) -> u8 {
    ((d >> 56u64) & 0xff) as u8
}

/// Unpacking a packed data word gives back each field.
pub proof fn lemma_pack_unpack(score: u16, eval: u16, mv: u16, depth: u8, info: u8)
    ensures
        data_score(pack_data(score, eval, mv, depth, info)) == score,
        data_eval(pack_data(score, eval, mv, depth, info)) == eval,
        data_move(pack_data(score, eval, mv, depth, info)) == mv,
        data_depth(pack_data(score, eval, mv, depth, info)) == depth,
        data_info(pack_data(score, eval, mv, depth, info)) == info,
{
    let d = pack_data(score, eval, mv, depth, info);
    assert(((d & 0xffff) as u16) == score && (((d >> 16u64) & 0xffff) as u16) == eval
        && (((d >> 32u64) & 0xffff) as u16) == mv && (((d >> 48u64) & 0xff) as u8) == depth
        && (((d >> 56u64) & 0xff) as u8) == info) by (bit_vector)
        requires
            d == (score as u64) | ((eval as u64) << 16u64) | ((mv as u64) << 32u64) | ((depth as u64) << 48u64)
                | ((info as u64) << 56u64),
    ;
}

/// One slot of the table.
pub struct PackedEntry {
    key: u64,
    data: u64,
}

/// Entry a slot yields when probed with `key`: `None` unless the stored key
/// (the key word xor the data word) is `key`.
pub open spec fn spec_load(key_word: u64, data: u64, key: u64) -> Option<TTEntry> {
    if key_word ^ data != key {
        None
    } else {
        let info = data_info(data);
        Some(TTEntry {
            key,
            depth: data_depth(data),
            age: info >> 3u8,
            score: data_score(data) as i16 as i32,
            eval: data_eval(data) as i16 as i32,
            bound: bound_of_code(info & 3),
            best_move: spec_decode_move_partial(data_move(data)),
        })
    }
}

/// Data word that storing an entry writes.
pub open spec fn spec_entry_data(e: TTEntry) -> u64 {
    pack_data(
        e.score as i16 as u16,
        e.eval as i16 as u16,
        spec_encode_move(e.best_move),
        e.depth,
        ((e.age << 3u8) | bound_code(e.bound)) as u8,
    )
}

impl PackedEntry {
    pub closed spec fn key_word(&self) -> u64 {
        self.key
    }

    pub closed spec fn data_word(&self) -> u64 {
        self.data
    }

    fn default() -> (r: PackedEntry)
        ensures
            r.key_word() == 0 && r.data_word() == 0,
    {
        PackedEntry { key: 0, data: 0 }
    }

    fn store(&mut self, entry: &TTEntry)
        ensures
            final(self).data_word() == spec_entry_data(*entry),
            final(self).key_word() == entry.key ^ spec_entry_data(*entry),
    {
        let info: u8 = (entry.age << 3u8) | entry.bound.code();
        let score: u16 = entry.score as i16 as u16;
        let eval: u16 = entry.eval as i16 as u16;
        let mv: u16 = encode_move(entry.best_move);
        let depth: u8 = entry.depth;
        let data: u64 = (score as u64) | ((eval as u64) << 16u64) | ((mv as u64) << 32u64) | ((depth as u64) << 48u64)
            | ((info as u64) << 56u64);
        self.data = data;
        self.key = entry.key ^ data;
    }

    fn load(&self, key: u64) -> (r: Option<TTEntry>)
        ensures
            r == spec_load(self.key_word(), self.data_word(), key),
    {
        let data = self.data;
        let stored_key = self.key ^ data;
        if stored_key != key {
            return None;
        }
        let info: u8 = ((data >> 56u64) & 0xff) as u8;
        let age: u8 = info >> 3u8;
        let bound = Bound::from_u8(info & 0b11);
        let score: u16 = (data & 0xffff) as u16;
        let eval: u16 = ((data >> 16u64) & 0xffff) as u16;
        let mv: u16 = ((data >> 32u64) & 0xffff) as u16;
        let depth: u8 = ((data >> 48u64) & 0xff) as u8;
        Some(TTEntry {
            key: stored_key,
            depth,
            age,
            score: score as i16 as i32,
            eval: eval as i16 as i32,
            bound,
            best_move: decode_move_partial(mv),
        })
    }
}

/// What probing a slot right after storing `e` into it returns: the same key,
/// depth, age and bound, the score and eval truncated to 16 bits, and the move
/// as the table's partial decoding of its code.
pub proof fn lemma_store_then_load(e: TTEntry)
    requires
        e.age < 32,
    ensures
        spec_load(e.key ^ spec_entry_data(e), spec_entry_data(e), e.key) == Some(TTEntry {
            key: e.key,
            depth: e.depth,
            age: e.age,
            score: e.score as i16 as i32,
            eval: e.eval as i16 as i32,
            bound: e.bound,
            best_move: spec_decode_move_partial(spec_encode_move(e.best_move)),
        }),
{
    let d = spec_entry_data(e);
    let info = ((e.age << 3u8) | bound_code(e.bound)) as u8;
    lemma_pack_unpack(e.score as i16 as u16, e.eval as i16 as u16, spec_encode_move(e.best_move), e.depth, info);
    let k = e.key;
    assert((k ^ d) ^ d == k) by (bit_vector);
    let age = e.age;
    let b = bound_code(e.bound);
    assert(b <= 2);
    assert((((age << 3u8) | b) >> 3u8) == age && (((age << 3u8) | b) & 3) == b) by (bit_vector)
        requires
            age < 32,
            b <= 2,
    ;
    assert(b & 3 == b) by (bit_vector)
        requires
            b <= 2,
    ;
    assert(bound_of_code(b) == e.bound);
    let sc = e.score as i16;
    assert((sc as u16) as i16 == sc) by (bit_vector);
    let ev = e.eval as i16;
    assert((ev as u16) as i16 == ev) by (bit_vector);
}


// ---------------------------------------------------------------------------
// Transposition table
// ---------------------------------------------------------------------------

/// Whether `p` is a power of two.
pub open spec fn is_pow2(p: nat) -> bool
    decreases p,
{
    if p == 1 {
        true
    } else if p >= 2 && p % 2 == 0 {
        is_pow2(p / 2)
    } else {
        false
    }
}

/// Smallest power of two that is at least `n` (1 for 0).
pub fn next_power_of_two(n: usize) -> (r: usize)
    requires
        n <= usize::MAX / 2 + 1,
    ensures
        is_pow2(r as nat),
        r >= n,
        r == 1 || r / 2 < n,
{
    let mut p: usize = 1;
    while p < n
        invariant
            is_pow2(p as nat),
            p == 1 || p / 2 < n,
            n <= usize::MAX / 2 + 1,
            1 <= p,
        decreases usize::MAX - p,
    {
        proof {
            assert((2 * p) / 2 == p);
            assert(is_pow2((2 * p) as nat));
        }
        p = p * 2;
    }
    p
}

/// Number of slots among the first `n` of `t` whose key word is non-zero.
pub open spec fn occupied_count(t: Seq<PackedEntry>, n: int) -> nat
    decreases n,
{
    if n <= 0 {
        0
    } else {
        occupied_count(t, n - 1) + if t[n - 1].key_word() != 0 { 1nat } else { 0nat }
    }
}

/// The table. Slot `key & mask` holds the entry for `key`.
pub struct TranspositionTable {
    table: Vec<PackedEntry>,
    mask: usize,
    age: u8,
}

/// Whether storing at depth `depth` into a slot holding `slot` is skipped: the slot
/// already holds an entry for this key from the current search that is more than two
/// plies deeper.
pub open spec fn spec_store_skipped(slot: PackedEntry, key: u64, depth: u8, age: u8) -> bool {
    match spec_load(slot.key_word(), slot.data_word(), key) {
        Some(e) => e.key == key && e.depth > depth + 2 && e.age == age,
        None => false,
    }
}

impl TranspositionTable {
    /// The slots.
    pub closed spec fn slots(&self) -> Seq<PackedEntry> {
        self.table@
    }

    /// Age of the current search, in 0..32.
    pub closed spec fn spec_age(&self) -> u8 {
        self.age
    }

    /// Slot that a key maps to.
    pub closed spec fn spec_index(&self, key: u64) -> int {
        ((key as usize) & self.mask) as int
    }

    /// The table invariant: as many slots as the mask addresses, and an age below 32.
    pub closed spec fn wf(&self) -> bool {
        &&& self.table@.len() == self.mask + 1
        &&& self.age < 32
    }

    /// What probing `key` yields.
    pub open spec fn spec_probe(&self, key: u64) -> Option<TTEntry> {
        let slot = self.slots()[self.spec_index(key)];
        spec_load(slot.key_word(), slot.data_word(), key)
    }

    /// Every key maps to a slot of the table.
    pub proof fn lemma_index_in_range(&self, key: u64)
        requires
            self.wf(),
        ensures
            0 <= self.spec_index(key) < self.slots().len(),
    {
        let k = key as usize;
        let m = self.mask;
        assert(k & m <= m) by (bit_vector);
    }

    /// A table of `size_mb` megabytes: the number of 16-byte slots that fit, rounded
    /// up to a power of two, all empty, at age 0.
    pub fn new(size_mb: usize) -> (r: TranspositionTable)
        requires
            size_mb * 1024 * 1024 <= usize::MAX,
        ensures
            r.wf(),
            r.spec_age() == 0,
            is_pow2(r.slots().len()),
            r.slots().len() >= size_mb * 1024 * 1024 / 16,
            r.slots().len() == 1 || r.slots().len() / 2 < size_mb * 1024 * 1024 / 16,
            forall|i: int| 0 <= i < r.slots().len() ==> r.slots()[i].key_word() == 0 && r.slots()[i].data_word() == 0,
    {
        let bytes = size_mb * 1024 * 1024;
        let capacity = next_power_of_two(bytes / 16);
        let mut table: Vec<PackedEntry> = Vec::new();
        let mut i: usize = 0;
        while i < capacity
            invariant
                i <= capacity,
                table@.len() == i,
                forall|j: int| 0 <= j < i ==> table@[j].key_word() == 0 && table@[j].data_word() == 0,
            decreases capacity - i,
        {
            table.push(PackedEntry::default());
            i += 1;
        }
        TranspositionTable { table, mask: capacity - 1, age: 0 }
    }

    /// Replaces the table by a fresh one of `size_mb` megabytes.
    pub fn init_tt(&mut self, size_mb: usize)
        requires
            size_mb * 1024 * 1024 <= usize::MAX,
        ensures
            final(self).wf(),
            final(self).spec_age() == 0,
            is_pow2(final(self).slots().len()),
            final(self).slots().len() >= size_mb * 1024 * 1024 / 16,
            final(self).slots().len() == 1 || final(self).slots().len() / 2 < size_mb * 1024 * 1024 / 16,
            forall|i: int| 0 <= i < final(self).slots().len() ==> final(self).slots()[i].key_word() == 0
                && final(self).slots()[i].data_word() == 0,
    {
        *self = Self::new(size_mb);
    }

    fn index(&self, key: u64) -> (r: usize)
        requires
            self.wf(),
        ensures
            r == self.spec_index(key),
            r < self.slots().len(),
    {
        proof {
            self.lemma_index_in_range(key);
        }
        key as usize & self.mask
    }

    /// The entry stored for `key`, without checking its move against the position.
    pub fn probe(&self, key: u64) -> (r: Option<TTEntry>)
        requires
            self.wf(),
        ensures
            r == self.spec_probe(key),
            r matches Some(e) ==> -32768 <= e.score <= 32767 && -32768 <= e.eval <= 32767,
    {
        let idx = self.index(key);
        self.table[idx].load(key)
    }

    /// The stored best move for `key`, recovered from the legal moves of the position.
    pub fn probe_move(&self, key: u64, legal_moves: &[ChessMove]) -> (r: Option<ChessMove>)
        requires
            self.wf(),
        ensures
            r == (match self.spec_probe(key) {
                Some(e) => spec_validate_move(spec_encode_move(e.best_move), legal_moves@),
                None => None,
            }),
            r matches Some(m) ==> legal_moves@.contains(m) && code_matches(spec_encode_move(self.spec_probe(key)->0.best_move), m),
    {
        let entry = match self.probe(key) {
            Some(e) => e,
            None => {
                return None;
            },
        };
        let encoded = encode_move(entry.best_move);
        if encoded == 0 {
            return None;
        }
        proof {
            lemma_validate_in_list(encoded, legal_moves@);
        }
        validate_move(encoded, legal_moves)
    }

    /// Stores an entry for `key` at the current age, unless the slot already holds an
    /// entry for the same key from this search that is more than two plies deeper.
    pub fn store(&mut self, key: u64, depth: usize, score: i32, eval: i32, bound: Bound, best_move: Option<ChessMove>)
        requires
            old(self).wf(),
        ensures
            final(self).wf(),
            final(self).spec_age() == old(self).spec_age(),
            final(self).slots().len() == old(self).slots().len(),
            ({
                let idx = old(self).spec_index(key);
                let entry = TTEntry {
                    key,
                    depth: depth as u8,
                    age: old(self).spec_age(),
                    score,
                    eval,
                    bound,
                    best_move,
                };
                if spec_store_skipped(old(self).slots()[idx], key, depth as u8, old(self).spec_age()) {
                    final(self).slots() == old(self).slots()
                } else {
                    &&& final(self).slots()[idx].data_word() == spec_entry_data(entry)
                    &&& final(self).slots()[idx].key_word() == key ^ spec_entry_data(entry)
                    &&& forall|i: int| 0 <= i < old(self).slots().len() && i != idx
                        ==> final(self).slots()[i] == old(self).slots()[i]
                }
            }),
            final(self).spec_index(key) == old(self).spec_index(key),
            forall|k: u64| final(self).spec_index(k) == old(self).spec_index(k),
    {
        let idx = self.index(key);
        let current_age = self.age;
        if let Some(existing) = self.table[idx].load(key) {
            if existing.key == key && (existing.depth as u16) > (depth as u8 as u16) + 2 && existing.age == current_age {
                return;
            }
        }
        let entry = TTEntry {
            key,
            depth: depth as u8,
            age: current_age,
            score,
            eval,
            bound,
            best_move,
        };
        let mut slot = PackedEntry::default();
        slot.store(&entry);
        self.table.set(idx, slot);
    }

    /// Empties every slot and resets the age.
    pub fn clear(&mut self)
        requires
            old(self).wf(),
        ensures
            final(self).wf(),
            final(self).spec_age() == 0,
            final(self).slots().len() == old(self).slots().len(),
            forall|i: int| 0 <= i < final(self).slots().len() ==> final(self).slots()[i].key_word() == 0
                && final(self).slots()[i].data_word() == 0,
            forall|k: u64| final(self).spec_index(k) == old(self).spec_index(k),
    {
        let n = self.table.len();
        let mut i: usize = 0;
        while i < n
            invariant
                n == self.table@.len(),
                n == old(self).table@.len(),
                self.mask == old(self).mask,
                i <= n,
                forall|j: int| 0 <= j < i ==> self.table@[j].key_word() == 0 && self.table@[j].data_word() == 0,
            decreases n - i,
        {
            self.table.set(i, PackedEntry::default());
            i += 1;
        }
        self.age = 0;
    }

    /// How many of the first 1000 slots are in use (the UCI `hashfull` figure, in permille).
    pub fn tt_occupancy(&self) -> (r: u32)
        requires
            self.slots().len() >= 1000,
        ensures
            r == occupied_count(self.slots(), 1000),
    {
        let mut count: u32 = 0;
        let mut i: usize = 0;
        while i < 1000
            invariant
                i <= 1000,
                self.table@.len() >= 1000,
                count == occupied_count(self.table@, i as int),
                count <= i,
            decreases 1000 - i,
        {
            if self.table[i].key != 0 {
                count += 1;
            }
            i += 1;
        }
        count
    }

    /// Advances the age of the current search, wrapping at 32.
    pub fn increment_age(&mut self)
        requires
            old(self).wf(),
        ensures
            final(self).wf(),
            final(self).spec_age() == (old(self).spec_age() + 1) % 32,
            final(self).slots() == old(self).slots(),
            forall|k: u64| final(self).spec_index(k) == old(self).spec_index(k),
    {
        self.age = (self.age + 1) % 32;
    }
}

/// Probing a key right after storing an entry for it (when the store is not skipped)
/// yields that entry: same key, depth, age and bound, score and eval truncated to
/// 16 bits, and the move in its partially decoded form.
pub proof fn lemma_table_store_probe(
    t0: TranspositionTable,
    t1: TranspositionTable,
    key: u64,
    depth: usize,
    score: i32,
    eval: i32,
    bound: Bound,
    best_move: Option<ChessMove>,
)
    requires
        t0.wf(),
        t1.wf(),
        t1.spec_age() == t0.spec_age(),
        t1.spec_index(key) == t0.spec_index(key),
        !spec_store_skipped(t0.slots()[t0.spec_index(key)], key, depth as u8, t0.spec_age()),
        ({
            let entry = TTEntry { key, depth: depth as u8, age: t0.spec_age(), score, eval, bound, best_move };
            &&& t1.slots()[t0.spec_index(key)].data_word() == spec_entry_data(entry)
            &&& t1.slots()[t0.spec_index(key)].key_word() == key ^ spec_entry_data(entry)
        }),
    ensures
        t1.spec_probe(key) == Some(TTEntry {
            key,
            depth: depth as u8,
            age: t0.spec_age(),
            score: score as i16 as i32,
            eval: eval as i16 as i32,
            bound,
            best_move: spec_decode_move_partial(spec_encode_move(best_move)),
        }),
{
    let entry = TTEntry { key, depth: depth as u8, age: t0.spec_age(), score, eval, bound, best_move };
    lemma_store_then_load(entry);
}

/// A move stored for a key (when the store is not skipped) is what `probe_move` gives
/// back against any move list that holds it: a move of that list with the same code,
/// so the same origin, target, kind and promotion.
pub proof fn lemma_store_then_probe_move(
    t0: TranspositionTable,
    t1: TranspositionTable,
    key: u64,
    depth: usize,
    score: i32,
    eval: i32,
    bound: Bound,
    mv: ChessMove,
    legal: Seq<ChessMove>,
)
    requires
        t0.wf(),
        t1.wf(),
        t1.spec_age() == t0.spec_age(),
        t1.spec_index(key) == t0.spec_index(key),
        !spec_store_skipped(t0.slots()[t0.spec_index(key)], key, depth as u8, t0.spec_age()),
        ({
            let entry = TTEntry { key, depth: depth as u8, age: t0.spec_age(), score, eval, bound, best_move: Some(mv) };
            &&& t1.slots()[t0.spec_index(key)].data_word() == spec_entry_data(entry)
            &&& t1.slots()[t0.spec_index(key)].key_word() == key ^ spec_entry_data(entry)
        }),
        mv.wf(),
        mv matches ChessMove::Normal { from, promotion, .. } ==> (promotion == Some(Role::Knight) ==> from >= 8),
        legal.contains(mv),
        spec_encode_move(Some(mv)) != 0,
    ensures
        ({
            let e = t1.spec_probe(key)->0;
            &&& t1.spec_probe(key) is Some
            &&& spec_validate_move(spec_encode_move(e.best_move), legal) matches Some(m)
                && legal.contains(m) && spec_encode_move(Some(m)) == spec_encode_move(Some(mv))
        }),
{
    lemma_table_store_probe(t0, t1, key, depth, score, eval, bound, Some(mv));
    lemma_move_code_roundtrip(mv);
    lemma_validate_finds(mv, legal);
    lemma_validate_in_list(spec_encode_move(Some(mv)), legal);
}

/// In a fresh table (every slot empty, as `new`, `init_tt` and `clear` leave it), one
/// store of a non-zero key is what probing that key gives back (score and eval
/// truncated to 16 bits, the move partially decoded), and every other non-zero key
/// probes empty.
pub proof fn lemma_fresh_table_store(
    t0: TranspositionTable,
    t1: TranspositionTable,
    key: u64,
    depth: usize,
    score: i32,
    eval: i32,
    bound: Bound,
    best_move: Option<ChessMove>,
    other: u64,
)
    requires
        t0.wf(),
        t1.wf(),
        forall|i: int| 0 <= i < t0.slots().len() ==> t0.slots()[i].key_word() == 0 && t0.slots()[i].data_word() == 0,
        key != 0,
        t1.spec_age() == t0.spec_age(),
        t1.slots().len() == t0.slots().len(),
        forall|k: u64| t1.spec_index(k) == t0.spec_index(k),
        ({
            let idx = t0.spec_index(key);
            let entry = TTEntry { key, depth: depth as u8, age: t0.spec_age(), score, eval, bound, best_move };
            if spec_store_skipped(t0.slots()[idx], key, depth as u8, t0.spec_age()) {
                t1.slots() == t0.slots()
            } else {
                &&& t1.slots()[idx].data_word() == spec_entry_data(entry)
                &&& t1.slots()[idx].key_word() == key ^ spec_entry_data(entry)
                &&& forall|i: int| 0 <= i < t0.slots().len() && i != idx ==> t1.slots()[i] == t0.slots()[i]
            }
        }),
    ensures
        t1.spec_probe(key) == Some(TTEntry {
            key,
            depth: depth as u8,
            age: t0.spec_age(),
            score: score as i16 as i32,
            eval: eval as i16 as i32,
            bound,
            best_move: spec_decode_move_partial(spec_encode_move(best_move)),
        }),
        other != key && other != 0 ==> t1.spec_probe(other) is None,
{
    let idx = t0.spec_index(key);
    t0.lemma_index_in_range(key);
    t0.lemma_index_in_range(other);
    let z: u64 = 0;
    assert(z ^ z == 0) by (bit_vector);
    assert(spec_load(t0.slots()[idx].key_word(), t0.slots()[idx].data_word(), key) is None);
    assert(!spec_store_skipped(t0.slots()[idx], key, depth as u8, t0.spec_age()));
    lemma_table_store_probe(t0, t1, key, depth, score, eval, bound, best_move);
    if other != key && other != 0 {
        let d = t1.slots()[idx].data_word();
        let kw = t1.slots()[idx].key_word();
        if t0.spec_index(other) == idx {
            assert((key ^ d) ^ d == key) by (bit_vector);
        } else {
            assert(t1.slots()[t0.spec_index(other)] == t0.slots()[t0.spec_index(other)]);
        }
    }
}


/// What a table entry may cut a search off with: never anything without enough
/// depth; a lower bound only when its (ply-adjusted) score reaches `beta`, and then
/// `beta`; an upper bound only when its score is at most `alpha`, and then `alpha`;
/// an exact score as it is. Conversely each of these cases does cut off.
pub proof fn lemma_try_score_cutoffs(e: TTEntry, depth: int, alpha: int, beta: int, ply: int)
    ensures
        spec_try_score(e, depth, alpha, beta, ply) is Some ==> e.depth >= depth,
        e.bound == Bound::Lower ==> {
            &&& (spec_try_score(e, depth, alpha, beta, ply) is Some
                <==> (e.depth >= depth && spec_score_from_tt(e.score as int, ply) >= beta))
            &&& (spec_try_score(e, depth, alpha, beta, ply) is Some ==> spec_try_score(e, depth, alpha, beta, ply)
                == Some(beta))
        },
        e.bound == Bound::Upper ==> {
            &&& (spec_try_score(e, depth, alpha, beta, ply) is Some
                <==> (e.depth >= depth && spec_score_from_tt(e.score as int, ply) <= alpha))
            &&& (spec_try_score(e, depth, alpha, beta, ply) is Some ==> spec_try_score(e, depth, alpha, beta, ply)
                == Some(alpha))
        },
        e.bound == Bound::Exact && e.depth >= depth ==> spec_try_score(e, depth, alpha, beta, ply) == Some(
            spec_score_from_tt(e.score as int, ply)),
        alpha < spec_score_from_tt(e.score as int, ply) < beta && e.bound != Bound::Exact
            ==> spec_try_score(e, depth, alpha, beta, ply) is None,
{
}

} // verus!
