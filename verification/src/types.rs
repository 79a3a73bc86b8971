use vstd::prelude::*;

verus! {

/// Score of a checkmate at the root; a mate in `n` plies scores `MATE_SCORE - n`.
pub const MATE_SCORE: i32 = 30000;

/// Score of a drawn position.
pub const DRAW_SCORE: i32 = 0;

/// Upper bound of the search window.
pub const MAX_INF: i32 = 32000;

/// Lower bound of the search window.
pub const MIN_INF: i32 = -32000;

/// Largest magnitude a history entry may hold.
pub const MAX_HISTORY: i32 = 16384;

/// Number of earlier plies that continuation history looks back over.
pub const MAX_PLY_CONTINUATION_HISTORY: usize = 4;

/// Piece values used to build the MVV-LVA table (pawn..king).
pub const PIECE_VALUES: [i32; 6] = [100, 300, 300, 500, 900, 0];

} // verus!

verus! {

/// `x` clamped to `[lo, hi]`.
pub open spec fn clamp(x: int, lo: int, hi: int) -> int {
    if x < lo {
        lo
    } else if x > hi {
        hi
    } else {
        x
    }
}

/// Integer division rounding toward zero, as Rust's `/` does (for `b > 0`).
pub open spec fn trunc_div(a: int, b: int) -> int {
    if a >= 0 {
        a / b
    } else {
        -((-a) / b)
    }
}

/// Absolute value.
pub open spec fn abs(x: int) -> int {
    if x < 0 {
        -x
    } else {
        x
    }
}

/// Integer division rounding toward zero for a divisor of either sign.
pub open spec fn rust_div(a: int, b: int) -> int {
    if b > 0 {
        trunc_div(a, b)
    } else {
        -trunc_div(a, -b)
    }
}

/// Rust's `i32` division (rounding toward zero).
pub fn div_i32(a: i32, b: i32) -> (r: i32)
    requires
        b != 0,
        b > i32::MIN,
        a != i32::MIN || b != -1,
    ensures
        r == rust_div(a as int, b as int),
{
    if b > 0 {
        a / b
    } else {
        let nb: i32 = -b;
        let q: i32 = a / nb;
        proof {
            if nb == 1 {
                assert(q == a);
            } else {
                assert(nb >= 2);
                assert(-1073741824 <= trunc_div(a as int, nb as int) <= 1073741824) by (nonlinear_arith)
                    requires
                        nb >= 2,
                        i32::MIN <= a <= i32::MAX,
                ;
            }
        }
        -q
    }
}

} // verus!
