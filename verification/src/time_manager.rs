//! Time management during iterative deepening: the time limit for the move is
//! scaled by how stable the best move and the score have been.
//!
//! Scale factors are exact decimals held in millionths, so the products the limit
//! is scaled by are exact.

use vstd::prelude::*;
use std::time::Instant;
use crate::chess::ChessMove;
use crate::clock::elapsed_ms;

verus! {

/// Unit of the time scale: one millionth.
pub const SCALE_ONE: u64 = 1000000;

/// Iterative-deepening time control state.
pub struct TimeManager {
    pub base_time_ms: u64,
    pub current_limit_ms: u64,
    pub start_time: Instant,
    pub best_move_stability: u32,
    pub score_stability: u32,
    pub prev_score: i32,
    pub prev_best_move: Option<ChessMove>,
}

/// Time scale, in millionths, after an iteration: more time when the best move
/// changed or the score moved or dropped, less when both have been stable, clamped
/// to `[0.6, 2.5]`.
pub open spec fn spec_scale(best_move_stability: u32, score_stability: u32, dropped: bool, jumped: bool) -> int {
    let s0 = 1000000int;
    let s1 = if best_move_stability == 0 {
        s0 * 12 / 10
    } else if best_move_stability <= 3 {
        s0
    } else if best_move_stability <= 6 {
        s0 * 9 / 10
    } else {
        s0 * 75 / 100
    };
    let s2 = if score_stability == 0 { s1 * 11 / 10 } else if score_stability >= 6 { s1 * 9 / 10 } else { s1 };
    let s3 = if dropped { s2 * 14 / 10 } else { s2 };
    let s4 = if jumped { s3 * 9 / 10 } else { s3 };
    if s4 < 600000 { 600000 } else if s4 > 2500000 { 2500000 } else { s4 }
}

impl TimeManager {
    /// A fresh manager whose limit is the base time.
    pub fn new(base_time_ms: u64, start_time: Instant) -> (r: TimeManager)
        ensures
            r.base_time_ms == base_time_ms,
            r.current_limit_ms == base_time_ms,
            r.best_move_stability == 0,
            r.score_stability == 0,
            r.prev_score == 0,
            r.prev_best_move is None,
    {
        TimeManager {
            base_time_ms,
            current_limit_ms: base_time_ms,
            start_time,
            best_move_stability: 0,
            score_stability: 0,
            prev_score: 0,
            prev_best_move: None,
        }
    }

    /// Records the result of an iteration and rescales the limit: the best move's
    /// stability counts iterations with the same best move, the score's counts
    /// iterations within 15 of the previous score; the limit becomes the base time
    /// times the scale, and at most three times the base time. So the limit stays
    /// between 0.6 and 2.5 times the base time (down to the whole millisecond).
    pub fn update(&mut self, score: i32, best_move: Option<ChessMove>)
        requires
            old(self).base_time_ms <= 1000000000000,
        ensures
            final(self).base_time_ms == old(self).base_time_ms,
            final(self).start_time == old(self).start_time,
            final(self).prev_score == score,
            final(self).prev_best_move == best_move,
            final(self).best_move_stability == if old(self).prev_best_move == best_move {
                old(self).best_move_stability.wrapping_add(1)
            } else {
                0
            },
            final(self).score_stability == if -15 <= score - old(self).prev_score <= 15 {
                old(self).score_stability.wrapping_add(1)
            } else {
                0
            },
            final(self).current_limit_ms == ({
                let limit = old(self).base_time_ms * spec_scale(final(self).best_move_stability, final(self).score_stability,
                    score < old(self).prev_score - 30, score > old(self).prev_score + 30) / SCALE_ONE as int;
                if limit < old(self).base_time_ms * 3 { limit } else { old(self).base_time_ms * 3 }
            }),
            final(self).current_limit_ms * 10 <= old(self).base_time_ms * 25,
            old(self).base_time_ms * 6 < (final(self).current_limit_ms + 1) * 10,
    {
        let prev = self.prev_score as i64;
        let s = score as i64;
        let score_dropped = s < prev - 30;
        let score_jumped = s > prev + 30;
        if self.prev_best_move == best_move {
            self.best_move_stability = self.best_move_stability.wrapping_add(1);
        } else {
            self.best_move_stability = 0;
        }
        if -15 <= s - prev && s - prev <= 15 {
            self.score_stability = self.score_stability.wrapping_add(1);
        } else {
            self.score_stability = 0;
        }
        self.prev_score = score;
        self.prev_best_move = best_move;
        let mut scale: u64 = SCALE_ONE;
        if self.best_move_stability == 0 {
            scale = scale * 12 / 10;
        } else if self.best_move_stability <= 3 {
        } else if self.best_move_stability <= 6 {
            scale = scale * 9 / 10;
        } else {
            scale = scale * 75 / 100;
        }
        if self.score_stability == 0 {
            scale = scale * 11 / 10;
        } else if self.score_stability >= 6 {
            scale = scale * 9 / 10;
        }
        if score_dropped {
            scale = scale * 14 / 10;
        }
        if score_jumped {
            scale = scale * 9 / 10;
        }
        if scale < 600000 {
            scale = 600000;
        } else if scale > 2500000 {
            scale = 2500000;
        }
        proof {
            assert(self.base_time_ms * scale <= 1000000000000 * 2500000) by (nonlinear_arith)
                requires
                    self.base_time_ms <= 1000000000000,
                    scale <= 2500000,
            ;
        }
        let limit = self.base_time_ms * scale / SCALE_ONE;
        proof {
            let b = self.base_time_ms as int;
            let sc = scale as int;
            let l = limit as int;
            assert(l * 1000000 <= b * sc && b * sc < (l + 1) * 1000000) by (nonlinear_arith)
                requires
                    l == b * sc / 1000000,
                    b >= 0,
                    sc >= 0,
            ;
            assert(b * sc <= b * 2500000 && b * 600000 <= b * sc) by (nonlinear_arith)
                requires
                    600000 <= sc <= 2500000,
                    b >= 0,
            ;
        }
        let cap = self.base_time_ms * 3;
        self.current_limit_ms = if limit < cap { limit } else { cap };
    }

    /// Whether the time used exceeds the current limit.
    pub fn should_stop(&self) -> (r: bool) {
        elapsed_ms(&self.start_time) > self.current_limit_ms
    }

    /// Milliseconds since the search started.
    pub fn elapsed(&self) -> (r: u64) {
        elapsed_ms(&self.start_time)
    }
}

} // verus!
