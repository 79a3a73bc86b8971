//! Structure hashes used to key correction history: a pawn hash and a hash of the
//! non-pawn pieces with the kings reduced to coarse buckets. Piece keys come from a
//! fixed splitmix64 sequence.

use vstd::prelude::*;
use crate::chess::{BoardState, Color, Role, bb_contains, bb_has, role_index, lemma_bit_and_not2};
use crate::position::Position;

verus! {

/// Seed of the piece key sequence.
pub const PIECE_HASH_SEED: u64 = 0xDEADBEEFCAFEBABE;

/// One step of the splitmix64 generator.
#[verifier::allow_in_spec]
pub fn splitmix64(x: u64) -> u64
    returns
        ({
            let x1 = x.wrapping_add(0x9E3779B97F4A7C15u64);
            let z1 = (x1 ^ (x1 >> 30u64)).wrapping_mul(0xBF58476D1CE4E5B9u64);
            let z2 = (z1 ^ (z1 >> 27u64)).wrapping_mul(0x94D049BB133111EBu64);
            z2 ^ (z2 >> 31u64)
        }),
{
    let x1 = x.wrapping_add(0x9E3779B97F4A7C15u64);
    let z1 = (x1 ^ (x1 >> 30u64)).wrapping_mul(0xBF58476D1CE4E5B9u64);
    let z2 = (z1 ^ (z1 >> 27u64)).wrapping_mul(0x94D049BB133111EBu64);
    z2 ^ (z2 >> 31u64)
}

/// The `n`-th value of the key sequence (`n` splitmix steps from the seed).
pub open spec fn splitmix_iter(n: nat) -> u64
    decreases n,
{
    if n == 0 {
        PIECE_HASH_SEED
    } else {
        splitmix64(splitmix_iter((n - 1) as nat))
    }
}

/// Key of a (color, role, square) triple, laid out as `[color][role][square]` with
/// colors and roles numbered as `shakmaty` numbers them (black 0, white 1; pawn 1 .. queen 5).
pub open spec fn piece_key(color: int, role: int, sq: int) -> u64 {
    splitmix_iter((color * 384 + role * 64 + sq + 1) as nat)
}

/// The 768 piece keys: entry `i` is the `(i + 1)`-th value of the key sequence.
pub fn generate_piece_hashes() -> (r: Vec<u64>)
    ensures
        r@.len() == 768,
        forall|i: int| 0 <= i < 768 ==> r@[i] == splitmix_iter((i + 1) as nat),
{
    let mut table: Vec<u64> = Vec::new();
    let mut seed: u64 = PIECE_HASH_SEED;
    let mut i: usize = 0;
    while i < 768
        invariant
            i <= 768,
            table@.len() == i,
            seed == splitmix_iter(i as nat),
            forall|j: int| 0 <= j < i ==> table@[j] == splitmix_iter((j + 1) as nat),
        decreases 768 - i,
    {
        seed = splitmix64(seed);
        table.push(seed);
        i += 1;
    }
    table
}

/// King bucket of each square, for the non-pawn structure hash.
pub open spec fn king_bucket(sq: int) -> int {
    let rank = sq / 8;
    let file = sq % 8;
    if 2 <= rank <= 3 {
        3
    } else if 4 <= rank <= 5 {
        4
    } else if rank == 0 || rank == 7 {
        if file == 3 || file == 4 { 1 } else if file == 5 { 2 } else { 0 }
    } else {
        if file == 2 || file == 3 { 1 } else if file == 4 || file == 5 { 2 } else { 0 }
    }
}

fn king_bucket_of(sq: usize) -> (r: usize)
    requires
        sq < 64,
    ensures
        r == king_bucket(sq as int),
        r < 5,
{
    let rank = sq / 8;
    let file = sq % 8;
    if 2 <= rank && rank <= 3 {
        3
    } else if 4 <= rank && rank <= 5 {
        4
    } else if rank == 0 || rank == 7 {
        if file == 3 || file == 4 { 1 } else if file == 5 { 2 } else { 0 }
    } else {
        if file == 2 || file == 3 { 1 } else if file == 4 || file == 5 { 2 } else { 0 }
    }
}

/// Index of a role as `shakmaty` numbers roles (pawn 1 .. king 6).
pub open spec fn role_repr(r: Role) -> int {
    role_index(r) as int + 1
}

/// Xor of the pawn keys of the pawns on the first `n` squares.
pub open spec fn pawn_hash_upto(s: BoardState, n: int) -> u64
    decreases n,
{
    if n <= 0 {
        0
    } else {
        let prev = pawn_hash_upto(s, n - 1);
        let sq = (n - 1) as u8;
        if bb_has(s.pawns, sq) {
            prev ^ piece_key(s.spec_color_at(sq)->0.repr() as int, 1, n - 1)
        } else {
            prev
        }
    }
}

/// Xor of the keys of the knights, bishops, rooks and queens on the first `n` squares.
pub open spec fn non_pawn_hash_upto(s: BoardState, n: int) -> u64
    decreases n,
{
    if n <= 0 {
        0
    } else {
        let prev = non_pawn_hash_upto(s, n - 1);
        let sq = (n - 1) as u8;
        if bb_has(s.occupied() & !s.pawns & !s.kings, sq) {
            prev ^ piece_key(s.spec_color_at(sq)->0.repr() as int, role_repr(s.spec_role_at(sq)->0), n - 1)
        } else {
            prev
        }
    }
}

/// `h` xor the king keys of the kings on the first `n` squares (each by its bucket).
pub open spec fn king_hash_upto(s: BoardState, h: u64, n: int) -> u64
    decreases n,
{
    if n <= 0 {
        h
    } else {
        let prev = king_hash_upto(s, h, n - 1);
        let sq = (n - 1) as u8;
        if bb_has(s.kings, sq) {
            prev ^ piece_key(s.spec_color_at(sq)->0.repr() as int, 0, king_bucket(n - 1))
        } else {
            prev
        }
    }
}

/// Pawn structure hash of a position.
pub open spec fn spec_pawnhash(s: BoardState) -> u64 {
    pawn_hash_upto(s, 64)
}

/// Non-pawn structure hash of a position: non-pawn, non-king pieces by square, and each
/// king by its bucket.
pub open spec fn spec_king_non_pawnhash(s: BoardState) -> u64 {
    king_hash_upto(s, non_pawn_hash_upto(s, 64), 64)
}

/// A hash value.
#[derive(Clone, Copy, PartialEq, Eq, Debug, Structural)]
pub struct Hash(pub u64);

impl Hash {
    /// Xors the key of a non-king piece into the hash.
    pub fn toggle_piece(&mut self, keys: &Vec<u64>, role: Role, sq: u8, color: Color)
        requires
            keys@.len() == 768,
            role != Role::King,
            sq < 64,
        ensures
            final(self).0 == old(self).0 ^ keys@[color.repr() * 384 + role_repr(role) * 64 + sq],
    {
        self.0 = self.0 ^ keys[color.repr() * 384 + (role_index(role) + 1) * 64 + sq as usize];
    }

    /// Pawn structure hash of a position.
    pub fn pawnhash(pos: &Position) -> (r: Hash)
        requires
            pos@.wf(),
        ensures
            r.0 == spec_pawnhash(pos@),
    {
        let keys = generate_piece_hashes();
        let board = pos.state();
        let mut hash = Hash(0);
        let mut sq: u8 = 0;
        while sq < 64
            invariant
                sq <= 64,
                board.wf(),
                *board == pos@,
                keys@.len() == 768,
                forall|i: int| 0 <= i < 768 ==> keys@[i] == splitmix_iter((i + 1) as nat),
                hash.0 == pawn_hash_upto(pos@, sq as int),
            decreases 64 - sq,
        {
            if bb_contains(board.pawns, sq) {
                proof {
                    pos@.lemma_piece_present(sq, Role::Pawn);
                }
                let color = board.color_at(sq).unwrap();
                hash.toggle_piece(&keys, Role::Pawn, sq, color);
            }
            sq += 1;
        }
        hash
    }

    /// Hash of the non-pawn pieces, with each king reduced to its bucket.
    pub fn king_non_pawnhash(pos: &Position) -> (r: Hash)
        requires
            pos@.wf(),
        ensures
            r.0 == spec_king_non_pawnhash(pos@),
    {
        let keys = generate_piece_hashes();
        let board = pos.state();
        let non_pawns = (board.white | board.black) & !board.pawns & !board.kings;
        let mut hash = Hash(0);
        let mut sq: u8 = 0;
        while sq < 64
            invariant
                sq <= 64,
                board.wf(),
                *board == pos@,
                non_pawns == pos@.occupied() & !pos@.pawns & !pos@.kings,
                keys@.len() == 768,
                forall|i: int| 0 <= i < 768 ==> keys@[i] == splitmix_iter((i + 1) as nat),
                hash.0 == non_pawn_hash_upto(pos@, sq as int),
            decreases 64 - sq,
        {
            if bb_contains(non_pawns, sq) {
                proof {
                    lemma_bit_and_not2(pos@.occupied(), pos@.pawns, pos@.kings, sq);
                    pos@.lemma_occupied_role(sq);
                }
                let color = board.color_at(sq).unwrap();
                let role = board.role_at(sq).unwrap();
                hash.toggle_piece(&keys, role, sq, color);
            }
            sq += 1;
        }
        let ghost base = hash.0;
        sq = 0;
        while sq < 64
            invariant
                sq <= 64,
                board.wf(),
                *board == pos@,
                keys@.len() == 768,
                forall|i: int| 0 <= i < 768 ==> keys@[i] == splitmix_iter((i + 1) as nat),
                base == non_pawn_hash_upto(pos@, 64),
                hash.0 == king_hash_upto(pos@, base, sq as int),
            decreases 64 - sq,
        {
            if bb_contains(board.kings, sq) {
                proof {
                    pos@.lemma_piece_present(sq, Role::King);
                }
                let color = board.color_at(sq).unwrap();
                let bucket = king_bucket_of(sq as usize);
                hash.0 = hash.0 ^ keys[color.repr() * 384 + bucket];
            }
            sq += 1;
        }
        hash
    }
}

/// Xoring the same piece key in twice leaves a hash unchanged.
pub proof fn lemma_toggle_twice(h: u64, key: u64)
    ensures
        (h ^ key) ^ key == h,
{
    assert((h ^ key) ^ key == h) by (bit_vector);
}

} // verus!
