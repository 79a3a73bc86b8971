//! Static evaluation: the network's score plus a mop-up term that drives the
//! losing king to the edge (or, with king, bishop and knight, to a corner of the
//! bishop's color) in basic mating endgames, clamped away from mate scores.

use vstd::prelude::*;
use crate::chess::{BoardState, Color, Role, count_bits, popcount, lowest_square};
use crate::position::{Position, spec_legal_moves};
use crate::network::{Accumulator, Network, spec_evaluate, L1};
use crate::types::{MATE_SCORE, clamp, abs};

verus! {

/// Larger of two integers.
pub open spec fn max_int(a: int, b: int) -> int {
    if a >= b { a } else { b }
}

/// Whether a square is dark (a1 is dark).
pub open spec fn is_dark(sq: int) -> bool {
    (sq % 8 + sq / 8) % 2 == 0
}

/// Distance to the nearer corner of a color, as the tables hold it.
pub open spec fn kbn_distance(dark: bool, sq: int) -> int {
    let f = sq % 8;
    let r = sq / 8;
    if dark {
        if f + r <= (7 - f) + (7 - r) { f + r } else { (7 - f) + (7 - r) }
    } else {
        if f + (7 - r) <= (7 - f) + r { f + (7 - r) } else { (7 - f) + r }
    }
}

/// Bonus for the winning king near the losing king and the losing king far from the centre.
pub open spec fn edge_bonus(winning: int, losing: int) -> int {
    let df = abs(winning % 8 - losing % 8);
    let dr = abs(winning / 8 - losing / 8);
    let centre = max_int(3 - losing / 8, losing / 8 - 4) + max_int(3 - losing % 8, losing % 8 - 4);
    ((14 - (df + dr)) * 4 + centre * 10) * 15
}

/// Bonus for the winning king near the losing king and the losing king near a corner
/// of the bishop's color.
pub open spec fn corner_bonus(winning: int, losing: int, bishop_sq: int) -> int {
    let df = abs(winning % 8 - losing % 8);
    let dr = abs(winning / 8 - losing / 8);
    0x780 - max_int(df, dr) * 16 - kbn_distance(is_dark(bishop_sq), losing) * 4
}

/// Mop-up bonus for the side to move given the network's `score`: in king and rook
/// or king and queen against king (or two bishops), when clearly winning, reward kings
/// close together and the losing king far from the centre; in king, bishop and knight
/// against king, reward kings close together and the losing king near a corner of the
/// bishop's color. Positive when the side to move is winning.
pub open spec fn spec_mopup(s: BoardState, score: int) -> int {
    let occ = popcount(s.white | s.black);
    let mopup_condition = (occ == 3 && (popcount(s.rooks) == 1 || popcount(s.queens) == 1))
        || (occ == 4 && popcount(s.bishops) == 2);
    let knbk_condition = occ == 4 && popcount(s.bishops) == 1 && popcount(s.knights) == 1;
    let color_value = if score < 0 { -1int } else { 1int };
    let us = s.turn;
    let winning = if score > 0 { s.spec_king_of(us) } else { s.spec_king_of(us.other()) } as int;
    let losing = if score < 0 { s.spec_king_of(us) } else { s.spec_king_of(us.other()) } as int;
    let bonus = if mopup_condition && abs(score) > 1000 {
        edge_bonus(winning, losing)
    } else if knbk_condition && abs(score) > 500 {
        corner_bonus(winning, losing, lowest_square(s.white & s.bishops | s.black & s.bishops) as int)
    } else {
        0
    };
    bonus * color_value
}

/// Distance of a square to the nearer corner of the given color.
pub fn corner_distance(dark: bool, sq: i32) -> (r: i32)
    requires
        0 <= sq < 64,
    ensures
        r == kbn_distance(dark, sq as int),
{
    let f = sq % 8;
    let r = sq / 8;
    if dark {
        if f + r <= (7 - f) + (7 - r) { f + r } else { (7 - f) + (7 - r) }
    } else {
        if f + (7 - r) <= (7 - f) + r { f + (7 - r) } else { (7 - f) + r }
    }
}

fn abs_i32(x: i32) -> (r: i32)
    requires
        x > i32::MIN,
    ensures
        r == abs(x as int),
{
    if x < 0 { -x } else { x }
}

fn max_i32(a: i32, b: i32) -> (r: i32)
    ensures
        r == max_int(a as int, b as int),
{
    if a >= b { a } else { b }
}

fn edge_bonus_of(winning: u8, losing: u8) -> (r: i32)
    requires
        winning < 64,
        losing < 64,
    ensures
        r == edge_bonus(winning as int, losing as int),
{
    let w = winning as i32;
    let l = losing as i32;
    let dst = abs_i32(w % 8 - l % 8) + abs_i32(w / 8 - l / 8);
    let centre = max_i32(3 - l / 8, l / 8 - 4) + max_i32(3 - l % 8, l % 8 - 4);
    ((14 - dst) * 4 + centre * 10) * 15
}

fn corner_bonus_of(winning: u8, losing: u8, bishop_sq: u32) -> (r: i32)
    requires
        winning < 64,
        losing < 64,
        bishop_sq <= 64,
    ensures
        r == corner_bonus(winning as int, losing as int, bishop_sq as int),
{
    let w = winning as i32;
    let l = losing as i32;
    let b = bishop_sq as i32;
    let dst = max_i32(abs_i32(w % 8 - l % 8), abs_i32(w / 8 - l / 8));
    let dark = (b % 8 + b / 8) % 2 == 0;
    0x780 - dst * 16 - corner_distance(dark, l) * 4
}

/// Mop-up bonus (see `spec_mopup`).
pub fn mopup_evaluation(board: &BoardState, score: i32) -> (r: i32)
    requires
        board.wf(),
        score > i32::MIN,
    ensures
        r == spec_mopup(*board, score as int),
{
    let occ = count_bits(board.white | board.black);
    let rooks = count_bits(board.rooks);
    let queens = count_bits(board.queens);
    let bishops = count_bits(board.bishops);
    let knights = count_bits(board.knights);
    let mopup_condition = (occ == 3 && (rooks == 1 || queens == 1)) || (occ == 4 && bishops == 2);
    let knbk_condition = occ == 4 && bishops == 1 && knights == 1;
    let color_value: i32 = if score < 0 { -1 } else { 1 };
    let us = board.turn;
    let abs_score = abs_i32(score);
    let mut mop_bonus: i32 = 0;
    if mopup_condition && abs_score > 1000 {
        let winning = if score > 0 { board.king_of(us) } else { board.king_of(us.other()) };
        let losing = if score < 0 { board.king_of(us) } else { board.king_of(us.other()) };
        mop_bonus = edge_bonus_of(winning, losing);
    } else if knbk_condition && abs_score > 500 {
        let winning = if score > 0 { board.king_of(us) } else { board.king_of(us.other()) };
        let losing = if score < 0 { board.king_of(us) } else { board.king_of(us.other()) };
        let bishops_bb = board.white & board.bishops | board.black & board.bishops;
        proof {
            vstd::std_specs::bits::axiom_u64_trailing_zeros(bishops_bb);
        }
        let bishop_sq = bishops_bb.trailing_zeros();
        mop_bonus = corner_bonus_of(winning, losing, bishop_sq);
    }
    mop_bonus * color_value
}

/// Static evaluation from the side to move's point of view: network score plus
/// mop-up bonus, clamped to within 1000 of the mate scores.
pub fn evaluate(board: &BoardState, net: &Network, us: &Accumulator, them: &Accumulator) -> (r: i32)
    requires
        board.wf(),
        net.wf(),
        us.vals@.len() == L1,
        them.vals@.len() == L1,
    ensures
        r == clamp(spec_evaluate(net, us.vals@, them.vals@, *board) + spec_mopup(*board, spec_evaluate(net, us.vals@, them.vals@, *board)),
            -MATE_SCORE + 1000, MATE_SCORE - 1000),
{
    let nnue_score = net.evaluate(us, them, board);
    let mopup_score = mopup_evaluation(board, nnue_score);
    let total = nnue_score + mopup_score;
    if total < -MATE_SCORE + 1000 {
        -MATE_SCORE + 1000
    } else if total > MATE_SCORE - 1000 {
        MATE_SCORE - 1000
    } else {
        total
    }
}

/// Material in pawns: pawns 1, knights and bishops 3, rooks 5, queens 9.
pub open spec fn spec_material_count(b: BoardState) -> int {
    (popcount(b.pawns) + 3 * popcount(b.knights) + 3 * popcount(b.bishops) + 5 * popcount(b.rooks)
        + 9 * popcount(b.queens)) as int
}

/// Material on the board in pawns (both sides together).
pub fn material_count(board: &BoardState) -> (r: i32)
    ensures
        r == spec_material_count(*board),
{
    count_bits(board.pawns) as i32 + count_bits(board.knights) as i32 * 3 + count_bits(board.bishops) as i32 * 3
        + count_bits(board.rooks) as i32 * 5 + count_bits(board.queens) as i32 * 9
}

/// Hand-crafted piece values of the simple evaluation: pawn 100, knight 300, bishop
/// 320, rook 500, queen 900, king 10000.
pub open spec fn hce_value(role: Role) -> int {
    match role {
        Role::Pawn => 100,
        Role::Knight => 300,
        Role::Bishop => 320,
        Role::Rook => 500,
        Role::Queen => 900,
        Role::King => 10000,
    }
}

/// White's material minus Black's for one role, in the simple evaluation's values.
pub open spec fn hce_role_term(b: BoardState, role: Role) -> int {
    hce_value(role) * (popcount(b.white & b.role_bb(role)) - popcount(b.black & b.role_bb(role)))
}

/// The simple evaluation: White-relative material, plus the number of legal moves
/// when White is to move, or minus it when Black is.
pub open spec fn spec_hce(b: BoardState, mobility: int) -> int {
    hce_role_term(b, Role::Pawn) + hce_role_term(b, Role::Knight) + hce_role_term(b, Role::Bishop)
        + hce_role_term(b, Role::Rook) + hce_role_term(b, Role::Queen) + hce_role_term(b, Role::King)
        + if b.turn == Color::White { mobility } else { -mobility }
}

/// A simple material and mobility evaluation of a position.
pub fn hce(pos: &Position) -> (r: i32)
    ensures
        r == spec_hce(pos@, spec_legal_moves(pos@).len() as int),
{
    let board = pos.state();
    let roles: [Role; 6] = [Role::Pawn, Role::Knight, Role::Bishop, Role::Rook, Role::Queen, Role::King];
    let values: [i32; 6] = [100, 300, 320, 500, 900, 10000];
    let mut score: i32 = 0;
    let mut k: usize = 0;
    while k < 6
        invariant
            k <= 6,
            *board == pos@,
            roles@ == seq![Role::Pawn, Role::Knight, Role::Bishop, Role::Rook, Role::Queen, Role::King],
            values@ == seq![100i32, 300, 320, 500, 900, 10000],
            -640000 * k <= score <= 640000 * k,
            score == (if k >= 1 { hce_role_term(pos@, Role::Pawn) } else { 0 })
                + (if k >= 2 { hce_role_term(pos@, Role::Knight) } else { 0 })
                + (if k >= 3 { hce_role_term(pos@, Role::Bishop) } else { 0 })
                + (if k >= 4 { hce_role_term(pos@, Role::Rook) } else { 0 })
                + (if k >= 5 { hce_role_term(pos@, Role::Queen) } else { 0 })
                + (if k >= 6 { hce_role_term(pos@, Role::King) } else { 0 }),
        decreases 6 - k,
    {
        let role = roles[k];
        let val = values[k];
        let white = count_bits(board.by_color(Color::White) & board.by_role(role)) as i32;
        let black = count_bits(board.by_color(Color::Black) & board.by_role(role)) as i32;
        proof {
            assert(val == hce_value(role));
            assert(-640000 <= val * (white - black) <= 640000) by (nonlinear_arith)
                requires
                    0 <= val <= 10000,
                    0 <= white <= 64,
                    0 <= black <= 64,
            ;
        }
        let term: i32 = val * (white - black);
        score = score + term;
        k += 1;
    }
    let mobility = pos.legal_moves().len() as i32;
    let mobility_bonus: i32 = if board.turn == Color::White { mobility } else { -mobility };
    score + mobility_bonus
}

} // verus!
