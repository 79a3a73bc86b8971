//! Static exchange evaluation: the material balance of the sequence of captures
//! on a move's target square in which each side always recaptures with its least
//! valuable attacker and may stop when recapturing would lose material.
//!
//! Sliding attackers hidden behind a piece that has captured are discovered as
//! the exchange goes on (x-rays). The gains are `i16` and wrap, as the release
//! build of the engine does on the rare exchanges whose sums leave that range.

use vstd::prelude::*;
use crate::chess::{BoardState, ChessMove, Color, Role, lowest_square};
use crate::position::{Position, spec_attacks_to, spec_bishop_attacks, spec_rook_attacks, rook_attacks, bishop_attacks};

verus! {

/// Value of a piece in an exchange; the king counts as a large finite value.
#[verifier::allow_in_spec]
pub fn see_value(role: Role) -> i16
    returns
        (match role {
            Role::Pawn => 100i16,
            Role::Knight => 300i16,
            Role::Bishop => 300i16,
            Role::Rook => 500i16,
            Role::Queen => 900i16,
            Role::King => 10000i16,
        }),
{
    match role {
        Role::Pawn => 100,
        Role::Knight => 300,
        Role::Bishop => 300,
        Role::Rook => 500,
        Role::Queen => 900,
        Role::King => 10000,
    }
}

/// Whether a pawn of `side` promotes on `sq`.
#[verifier::allow_in_spec]
pub fn is_promotion_square(side: Color, sq: u8) -> bool
    returns
        (match side {
            Color::White => sq / 8 == 7,
            Color::Black => sq / 8 == 0,
        }),
{
    match side {
        Color::White => sq / 8 == 7,
        Color::Black => sq / 8 == 0,
    }
}

/// The lowest set bit of `x` as a bitboard.
pub open spec fn lowest_bit(x: u64) -> u64 {
    1u64 << lowest_square(x)
}

/// Attackers of `color` among `attackers` that have role `role`.
pub open spec fn role_attackers(s: BoardState, attackers: u64, color: Color, role: Role) -> u64 {
    attackers & s.role_bb(role) & s.color_bb(color)
}

/// The least valuable attacker of `color` among `attackers`: the lowest square of the
/// first role, in order pawn .. king, that has one, with that role.
pub open spec fn spec_lva(s: BoardState, attackers: u64, color: Color) -> Option<(u64, Role)> {
    if role_attackers(s, attackers, color, Role::Pawn) != 0 {
        Some((lowest_bit(role_attackers(s, attackers, color, Role::Pawn)), Role::Pawn))
    } else if role_attackers(s, attackers, color, Role::Knight) != 0 {
        Some((lowest_bit(role_attackers(s, attackers, color, Role::Knight)), Role::Knight))
    } else if role_attackers(s, attackers, color, Role::Bishop) != 0 {
        Some((lowest_bit(role_attackers(s, attackers, color, Role::Bishop)), Role::Bishop))
    } else if role_attackers(s, attackers, color, Role::Rook) != 0 {
        Some((lowest_bit(role_attackers(s, attackers, color, Role::Rook)), Role::Rook))
    } else if role_attackers(s, attackers, color, Role::Queen) != 0 {
        Some((lowest_bit(role_attackers(s, attackers, color, Role::Queen)), Role::Queen))
    } else if role_attackers(s, attackers, color, Role::King) != 0 {
        Some((lowest_bit(role_attackers(s, attackers, color, Role::King)), Role::King))
    } else {
        None
    }
}

/// Sliders of either color attacking `sq` through the given occupancy.
pub open spec fn spec_xray(s: BoardState, sq: u8, occupied: u64) -> u64 {
    (spec_bishop_attacks(sq, occupied) & (s.bishops | s.queens)) | (spec_rook_attacks(sq, occupied) & (s.rooks | s.queens))
}

proof fn lemma_lowest_bit_of(sub: u64, a: u64, seen: u64)
    requires
        sub != 0,
        sub & a == sub,
        a & seen == 0,
    ensures
        lowest_bit(sub) != 0,
        lowest_bit(sub) & seen == 0,
        lowest_bit(sub) & sub == lowest_bit(sub),
{
    vstd::std_specs::bits::axiom_u64_trailing_zeros(sub);
    let t = lowest_square(sub) as u64;
    assert(t < 64);
    assert(((sub >> t) & 1u64 == 1u64) && t < 64 && sub & a == sub && a & seen == 0 ==>
        (1u64 << t) != 0 && (1u64 << t) & seen == 0 && (1u64 << t) & sub == (1u64 << t)) by (bit_vector);
}

/// Adding a bit not yet in `seen` makes it larger.
pub proof fn lemma_seen_grows(seen: u64, b: u64)
    requires
        b != 0,
        b & seen == 0,
    ensures
        (seen | b) > seen,
{
    assert(b != 0 && b & seen == 0 ==> (seen | b) > seen) by (bit_vector);
}

/// The swap list of the exchange from a given state on, and the depth it ends at.
///
/// `gains` holds the gains so far, the last being that of the capture by the piece
/// `attacker_bb` (of role `attacker_role`) now on the target; `side` recaptures next.
pub open spec fn exchange(s: BoardState, to: u8, slider_mask: u64, occupied: u64, attackers: u64, seen: u64,
    attacker_bb: u64, attacker_role: Role, side: Color, gains: Seq<i16>) -> (Seq<i16>, int)
    decreases u64::MAX - seen,
{
    if attacker_bb == 0 || attacker_bb & seen != 0 || attackers & seen != 0 || gains.len() == 0 {
        (gains, gains.len() - 1)
    } else {
        let attackers1 = attackers & !attacker_bb;
        let occupied1 = occupied & !attacker_bb;
        let seen1 = seen | attacker_bb;
        let attackers2 = if attacker_bb & slider_mask != 0 {
            attackers1 | (spec_xray(s, to, occupied1) & !seen1)
        } else {
            attackers1
        };
        if attackers2 & s.color_bb(side) == 0 {
            (gains.push(0), gains.len() - 1)
        } else {
            match spec_lva(s, attackers2, side) {
                Some((bb, role)) => {
                    let g = see_value(attacker_role).wrapping_sub(gains.last());
                    let promo = role == Role::Pawn && is_promotion_square(side, to);
                    let g2 = if promo { g.wrapping_add(800) } else { g };
                    let next_role = if promo { Role::Queen } else { role };
                    proof {
                        lemma_seen_grows(seen, attacker_bb);
                    }
                    exchange(s, to, slider_mask, occupied1, attackers2, seen1, bb, next_role, side.other(), gains.push(g2))
                },
                None => (gains.push(0), gains.len() as int),
            }
        }
    }
}

/// The larger of two gains.
pub open spec fn max16(a: i16, b: i16) -> i16 {
    if a <= b { b } else { a }
}

/// The swap list after each side, from `depth` back to the start, chose between
/// standing pat and recapturing.
pub open spec fn backprop(g: Seq<i16>, depth: int) -> Seq<i16>
    decreases depth,
{
    if depth <= 0 {
        g
    } else {
        let m = max16(0i16.wrapping_sub(g[depth - 1]), g[depth]);
        backprop(g.update(depth - 1, 0i16.wrapping_sub(m)), depth - 1)
    }
}

/// Square of the pawn taken en passant: the target's file on the origin's rank.
pub open spec fn ep_victim_square(from: u8, to: u8) -> u8 {
    ((from / 8) * 8 + to % 8) as u8
}

/// Value taken by the first capture: a pawn en passant, else the piece on the
/// target (nothing for a quiet move).
pub open spec fn target_value(s: BoardState, mv: ChessMove) -> i16 {
    if mv is EnPassant {
        100
    } else {
        match s.spec_role_at(mv.to()) {
            Some(r) => see_value(r),
            None => 0,
        }
    }
}

/// Static exchange evaluation of a move: for a capture or promotion, the gain of the
/// best stopping point of the exchange it starts; for a quiet move, minus the best
/// gain of the opponent's exchange on the target square.
pub open spec fn spec_see(s: BoardState, mv: ChessMove) -> i16 {
    let to = mv.to();
    let from = mv.from()->0;
    let occ0 = s.white | s.black;
    let occupied = if mv is EnPassant { occ0 & !(1u64 << ep_victim_square(from, to)) } else { occ0 };
    let g0 = match mv.promotion() {
        Some(p) => target_value(s, mv).wrapping_add(see_value(p).wrapping_sub(100)),
        None => target_value(s, mv),
    };
    let role0 = match mv.promotion() {
        Some(p) => p,
        None => s.spec_role_at(from)->0,
    };
    let attackers = spec_attacks_to(s, to, Color::White, occupied) | spec_attacks_to(s, to, Color::Black, occupied);
    let slider_mask = occupied & !(s.knights | s.kings);
    let (g, depth) = exchange(s, to, slider_mask, occupied, attackers, 0, 1u64 << from, role0, s.turn.other(), seq![g0]);
    let b = backprop(g, depth);
    if !mv.is_capture() && !mv.is_promotion() {
        0i16.wrapping_sub(b[1])
    } else {
        b[0]
    }
}

/// Sliders of either color attacking `sq` through the given occupancy.
fn xray_attackers(board: &BoardState, sq: u8, occupied: u64) -> (r: u64)
    requires
        sq < 64,
    ensures
        r == spec_xray(*board, sq, occupied),
{
    (bishop_attacks(sq, occupied) & (board.bishops | board.queens)) | (rook_attacks(sq, occupied) & (board.rooks | board.queens))
}

/// The lowest square of a non-empty bitboard, as a bitboard.
fn first_bit(x: u64) -> (r: u64)
    requires
        x != 0,
    ensures
        r == lowest_bit(x),
{
    proof {
        vstd::std_specs::bits::axiom_u64_trailing_zeros(x);
    }
    let t = x.trailing_zeros();
    1u64 << t
}

/// The least valuable attacker of `color` among `attackers`.
fn least_valuable_attacker(board: &BoardState, attackers: u64, color: Color) -> (r: Option<(u64, Role)>)
    ensures
        r == spec_lva(*board, attackers, color),
{
    let c = board.by_color(color);
    let p = attackers & board.pawns & c;
    if p != 0 {
        return Some((first_bit(p), Role::Pawn));
    }
    let n = attackers & board.knights & c;
    if n != 0 {
        return Some((first_bit(n), Role::Knight));
    }
    let b = attackers & board.bishops & c;
    if b != 0 {
        return Some((first_bit(b), Role::Bishop));
    }
    let r = attackers & board.rooks & c;
    if r != 0 {
        return Some((first_bit(r), Role::Rook));
    }
    let q = attackers & board.queens & c;
    if q != 0 {
        return Some((first_bit(q), Role::Queen));
    }
    let k = attackers & board.kings & c;
    if k != 0 {
        return Some((first_bit(k), Role::King));
    }
    None
}

proof fn lemma_lva_fresh(s: BoardState, a: u64, color: Color, seen: u64)
    requires
        a & seen == 0,
        spec_lva(s, a, color) is Some,
    ensures
        spec_lva(s, a, color) matches Some((bb, _)) ==> bb != 0 && bb & seen == 0,
{
    let c = s.color_bb(color);
    let (bb, r) = spec_lva(s, a, color)->0;
    let sub = a & s.role_bb(r) & c;
    let rb = s.role_bb(r);
    assert(sub & a == sub) by (bit_vector)
        requires
            sub == a & rb & c,
    ;
    lemma_lowest_bit_of(sub, a, seen);
}

/// Static exchange evaluation of a move in a position (see `spec_see`).
pub fn see(pos: &Position, mv: ChessMove) -> (r: i16)
    requires
        mv.wf(),
        mv !is Put,
        mv.promotion() is Some || pos@.spec_role_at(mv.from()->0) is Some,
    ensures
        r == spec_see(pos@, mv),
{
    let board = pos.state();
    let to = mv.to();
    let from: u8 = match mv.from() {
        Some(f) => f,
        None => 0,
    };
    let mut occupied = board.white | board.black;
    let is_quiet = !mv.is_capture() && !mv.is_promotion();
    if mv.is_en_passant() {
        let ep_sq: u8 = (from / 8) * 8 + to % 8;
        occupied = occupied & !(1u64 << ep_sq);
    }
    let tv: i16 = if mv.is_en_passant() {
        100
    } else {
        match board.role_at(to) {
            Some(r) => see_value(r),
            None => 0,
        }
    };
    let g0: i16 = match mv.promotion() {
        Some(p) => tv + see_value(p) - 100,
        None => tv,
    };
    let mut gain: Vec<i16> = Vec::new();
    gain.push(g0);
    let mut attacker_role: Role = match mv.promotion() {
        Some(p) => p,
        None => match board.role_at(from) {
            Some(r) => r,
            None => Role::Pawn,
        },
    };
    let mut attacker_bb: u64 = 1u64 << from;
    let mut side = board.turn.other();
    let mut seen: u64 = 0;
    let mut attackers = pos.attacks_to(to, Color::White, occupied) | pos.attacks_to(to, Color::Black, occupied);
    let slider_mask = occupied & !(board.knights | board.kings);
    proof {
        let f = from as u64;
        assert(f < 64 ==> (1u64 << f) != 0) by (bit_vector);
        assert(attackers & 0u64 == 0) by (bit_vector);
        assert(attacker_bb & 0u64 == 0) by (bit_vector);
        assert(gain@ =~= seq![g0]);
    }
    let ghost result = exchange(*board, to, slider_mask, occupied, attackers, seen, attacker_bb, attacker_role, side, gain@);
    let mut depth: usize = 0;
    loop
        invariant_except_break
            attacker_bb != 0,
            attacker_bb & seen == 0,
            attackers & seen == 0,
            gain@.len() >= 1,
            exchange(*board, to, slider_mask, occupied, attackers, seen, attacker_bb, attacker_role, side, gain@) == result,
        invariant
            to < 64,
            *board == pos@,
        ensures
            gain@ == result.0,
            depth == result.1,
            gain@.len() >= 2,
            depth < gain@.len(),
        decreases u64::MAX - seen,
    {
        let ghost old_seen = seen;
        let ghost old_bb = attacker_bb;
        let abb = attacker_bb;
        let sn = seen;
        let a0 = attackers;
        attackers = a0 & !abb;
        occupied = occupied & !abb;
        seen = sn | abb;
        let a1 = attackers;
        let s1 = seen;
        proof {
            assert(a1 & s1 == 0) by (bit_vector)
                requires
                    a0 & sn == 0,
                    a1 == a0 & !abb,
                    s1 == sn | abb,
            ;
        }
        if abb & slider_mask != 0 {
            let x = xray_attackers(board, to, occupied);
            attackers = a1 | (x & !s1);
            let a2 = attackers;
            proof {
                assert(a2 & s1 == 0) by (bit_vector)
                    requires
                        a1 & s1 == 0,
                        a2 == a1 | (x & !s1),
                ;
            }
        }
        if attackers & board.by_color(side) == 0 {
            depth = gain.len() - 1;
            gain.push(0);
            break;
        }
        match least_valuable_attacker(board, attackers, side) {
            Some((bb, role)) => {
                proof {
                    lemma_lva_fresh(*board, attackers, side, seen);
                    lemma_seen_grows(old_seen, old_bb);
                }
                let last = gain[gain.len() - 1];
                let g = see_value(attacker_role).wrapping_sub(last);
                let promo = role == Role::Pawn && is_promotion_square(side, to);
                let g2 = if promo { g.wrapping_add(800) } else { g };
                gain.push(g2);
                attacker_bb = bb;
                attacker_role = if promo { Role::Queen } else { role };
                side = side.other();
            },
            None => {
                depth = gain.len();
                gain.push(0);
                break;
            },
        }
    }
    let ghost swap = gain@;
    let ghost final_depth = depth as int;
    while depth > 0
        invariant
            depth < gain@.len(),
            gain@.len() == swap.len(),
            backprop(gain@, depth as int) == backprop(swap, final_depth),
        decreases depth,
    {
        let prev = gain[depth - 1];
        let cur = gain[depth];
        let neg_prev = 0i16.wrapping_sub(prev);
        let m = if neg_prev <= cur { cur } else { neg_prev };
        gain.set(depth - 1, 0i16.wrapping_sub(m));
        depth -= 1;
    }
    if is_quiet {
        0i16.wrapping_sub(gain[1])
    } else {
        gain[0]
    }
}


/// Gain of the first capture of a move: the value it takes plus its promotion bonus.
pub open spec fn first_gain(s: BoardState, mv: ChessMove) -> int {
    match mv.promotion() {
        Some(p) => target_value(s, mv) + see_value(p) - 100,
        None => target_value(s, mv) as int,
    }
}

proof fn lemma_exchange_keeps_first(s: BoardState, to: u8, slider_mask: u64, occupied: u64, attackers: u64, seen: u64,
    attacker_bb: u64, attacker_role: Role, side: Color, gains: Seq<i16>)
    requires
        gains.len() >= 1,
    ensures
        exchange(s, to, slider_mask, occupied, attackers, seen, attacker_bb, attacker_role, side, gains).0.len() >= 1,
        exchange(s, to, slider_mask, occupied, attackers, seen, attacker_bb, attacker_role, side, gains).0[0] == gains[0],
        0 <= exchange(s, to, slider_mask, occupied, attackers, seen, attacker_bb, attacker_role, side, gains).1
            < exchange(s, to, slider_mask, occupied, attackers, seen, attacker_bb, attacker_role, side, gains).0.len(),
    decreases u64::MAX - seen,
{
    if attacker_bb == 0 || attacker_bb & seen != 0 || attackers & seen != 0 {
    } else {
        let attackers1 = attackers & !attacker_bb;
        let occupied1 = occupied & !attacker_bb;
        let seen1 = seen | attacker_bb;
        let attackers2 = if attacker_bb & slider_mask != 0 {
            attackers1 | (spec_xray(s, to, occupied1) & !seen1)
        } else {
            attackers1
        };
        if attackers2 & s.color_bb(side) == 0 {
        } else {
            match spec_lva(s, attackers2, side) {
                Some((bb, role)) => {
                    let g = see_value(attacker_role).wrapping_sub(gains.last());
                    let promo = role == Role::Pawn && is_promotion_square(side, to);
                    let g2 = if promo { g.wrapping_add(800) } else { g };
                    let next_role = if promo { Role::Queen } else { role };
                    lemma_seen_grows(seen, attacker_bb);
                    lemma_exchange_keeps_first(s, to, slider_mask, occupied1, attackers2, seen1, bb, next_role,
                        side.other(), gains.push(g2));
                },
                None => {},
            }
        }
    }
}

proof fn lemma_backprop_first(g: Seq<i16>, depth: int)
    requires
        1 <= depth < g.len(),
    ensures
        backprop(g, depth).len() == g.len(),
        exists|x: i16| backprop(g, depth)[0] == 0i16.wrapping_sub(max16(0i16.wrapping_sub(g[0]), x)),
    decreases depth,
{
    let m = max16(0i16.wrapping_sub(g[depth - 1]), g[depth]);
    let g1 = g.update(depth - 1, 0i16.wrapping_sub(m));
    if depth == 1 {
        assert(backprop(g1, 0) == g1);
        assert(backprop(g, depth)[0] == 0i16.wrapping_sub(max16(0i16.wrapping_sub(g[0]), g[1])));
    } else {
        lemma_backprop_first(g1, depth - 1);
        assert(g1[0] == g[0]);
    }
}

/// The exchange evaluation of a capture or promotion never exceeds the gain of its
/// first capture: the side that moved can always stop after it.
pub proof fn lemma_see_at_most_first_gain(s: BoardState, mv: ChessMove)
    requires
        mv.wf(),
        mv !is Put,
        mv.is_capture() || mv.is_promotion(),
    ensures
        spec_see(s, mv) <= first_gain(s, mv),
{
    let to = mv.to();
    let from = mv.from()->0;
    let occ0 = s.white | s.black;
    let occupied = if mv is EnPassant { occ0 & !(1u64 << ep_victim_square(from, to)) } else { occ0 };
    let g0 = match mv.promotion() {
        Some(p) => target_value(s, mv).wrapping_add(see_value(p).wrapping_sub(100)),
        None => target_value(s, mv),
    };
    let role0 = match mv.promotion() {
        Some(p) => p,
        None => s.spec_role_at(from)->0,
    };
    let attackers = spec_attacks_to(s, to, Color::White, occupied) | spec_attacks_to(s, to, Color::Black, occupied);
    let slider_mask = occupied & !(s.knights | s.kings);
    let gs = seq![g0];
    lemma_exchange_keeps_first(s, to, slider_mask, occupied, attackers, 0, 1u64 << from, role0, s.turn.other(), gs);
    let (g, depth) = exchange(s, to, slider_mask, occupied, attackers, 0, 1u64 << from, role0, s.turn.other(), gs);
    assert(0 <= target_value(s, mv) <= 10000);
    assert(0 <= g0 <= 20000);
    assert(g0 == first_gain(s, mv));
    if depth >= 1 {
        lemma_backprop_first(g, depth);
        let x = choose|x: i16| backprop(g, depth)[0] == 0i16.wrapping_sub(max16(0i16.wrapping_sub(g[0]), x));
        assert(0i16.wrapping_sub(g0) == -g0);
        let m = max16(0i16.wrapping_sub(g0), x);
        assert(0i16.wrapping_sub(m) == -m);
    }
}

/// The exchange keeps the gains it started from and ends at or after the last of them.
proof fn lemma_exchange_prefix(s: BoardState, to: u8, slider_mask: u64, occupied: u64, attackers: u64, seen: u64,
    attacker_bb: u64, attacker_role: Role, side: Color, gains: Seq<i16>)
    requires
        gains.len() >= 1,
    ensures
        ({
            let (g, d) = exchange(s, to, slider_mask, occupied, attackers, seen, attacker_bb, attacker_role, side, gains);
            &&& g.len() >= gains.len()
            &&& forall|k: int| 0 <= k < gains.len() ==> g[k] == gains[k]
            &&& gains.len() - 1 <= d < g.len()
        }),
    decreases u64::MAX - seen,
{
    if attacker_bb == 0 || attacker_bb & seen != 0 || attackers & seen != 0 {
    } else {
        let attackers1 = attackers & !attacker_bb;
        let occupied1 = occupied & !attacker_bb;
        let seen1 = seen | attacker_bb;
        let attackers2 = if attacker_bb & slider_mask != 0 {
            attackers1 | (spec_xray(s, to, occupied1) & !seen1)
        } else {
            attackers1
        };
        if attackers2 & s.color_bb(side) == 0 {
        } else {
            match spec_lva(s, attackers2, side) {
                Some((bb, role)) => {
                    let g = see_value(attacker_role).wrapping_sub(gains.last());
                    let promo = role == Role::Pawn && is_promotion_square(side, to);
                    let g2 = if promo { g.wrapping_add(800) } else { g };
                    let next_role = if promo { Role::Queen } else { role };
                    lemma_seen_grows(seen, attacker_bb);
                    lemma_exchange_prefix(s, to, slider_mask, occupied1, attackers2, seen1, bb, next_role,
                        side.other(), gains.push(g2));
                    let (r, _) = exchange(s, to, slider_mask, occupied1, attackers2, seen1, bb, next_role, side.other(),
                        gains.push(g2));
                    assert forall|k: int| 0 <= k < gains.len() implies r[k] == gains[k] by {
                        assert(gains.push(g2)[k] == gains[k]);
                    }
                },
                None => {},
            }
        }
    }
}

/// The swap list after back-propagation: its head is the mover's choice between its
/// first gain and the opponent's best reply, and that reply is worth no more to the
/// opponent than recapturing and stopping.
proof fn lemma_backprop_head(g: Seq<i16>, depth: int)
    requires
        1 <= depth < g.len(),
        g[1] != i16::MIN,
    ensures
        backprop(g, depth).len() == g.len(),
        backprop(g, depth)[0] == 0i16.wrapping_sub(max16(0i16.wrapping_sub(g[0]), backprop(g, depth)[1])),
        backprop(g, depth)[1] <= g[1],
    decreases depth,
{
    let m = max16(0i16.wrapping_sub(g[depth - 1]), g[depth]);
    let g1 = g.update(depth - 1, 0i16.wrapping_sub(m));
    if depth == 1 {
        assert(backprop(g1, 0) == g1);
    } else {
        assert(g1[0] == g[0]);
        if depth == 2 {
            assert(0i16.wrapping_sub(g[1]) == -g[1]);
            assert(g1[1] <= g[1]);
            assert(backprop(g1, 1) == backprop(g1.update(0, 0i16.wrapping_sub(max16(0i16.wrapping_sub(g1[0]), g1[1]))), 0));
        } else {
            assert(g1[1] == g[1]);
            lemma_backprop_head(g1, depth - 1);
        }
    }
}

/// With attackers of a side left, the least valuable one exists.
proof fn lemma_lva_found(s: BoardState, a: u64, color: Color)
    requires
        s.wf(),
        a & s.color_bb(color) != 0,
    ensures
        spec_lva(s, a, color) is Some,
{
    let (p, n, b, r, q, k) = (s.pawns, s.knights, s.bishops, s.rooks, s.queens, s.kings);
    let (w, bl) = (s.white, s.black);
    let c = s.color_bb(color);
    assert(((a & p & c) == 0 && (a & n & c) == 0 && (a & b & c) == 0 && (a & r & c) == 0 && (a & q & c) == 0
        && (a & k & c) == 0 && (p | n | b | r | q | k) == (w | bl) && (c == w || c == bl)) ==> a & c == 0)
        by (bit_vector);
}

/// Value of the piece a move puts on its target: the promoted piece, else the mover.
pub open spec fn mover_value(s: BoardState, mv: ChessMove) -> int {
    match mv.promotion() {
        Some(p) => see_value(p) as int,
        None => see_value(s.spec_role_at(mv.from()->0)->0) as int,
    }
}

/// The exchange evaluation of a capture or promotion loses at most the piece that
/// moved: whatever the opponent recaptures with, the mover's side can stop there
/// (when the opponent's recapture does not itself promote).
pub proof fn lemma_see_at_least_first_gain_less_mover(s: BoardState, mv: ChessMove)
    requires
        s.wf(),
        mv.wf(),
        mv !is Put,
        mv.is_capture() || mv.is_promotion(),
        mv.promotion() is Some || s.spec_role_at(mv.from()->0) is Some,
        !is_promotion_square(s.turn.other(), mv.to()),
    ensures
        spec_see(s, mv) >= first_gain(s, mv) - mover_value(s, mv),
{
    let to = mv.to();
    let from = mv.from()->0;
    let occ0 = s.white | s.black;
    let occupied = if mv is EnPassant { occ0 & !(1u64 << ep_victim_square(from, to)) } else { occ0 };
    let g0 = match mv.promotion() {
        Some(p) => target_value(s, mv).wrapping_add(see_value(p).wrapping_sub(100)),
        None => target_value(s, mv),
    };
    let role0 = match mv.promotion() {
        Some(p) => p,
        None => s.spec_role_at(from)->0,
    };
    let attackers = spec_attacks_to(s, to, Color::White, occupied) | spec_attacks_to(s, to, Color::Black, occupied);
    let slider_mask = occupied & !(s.knights | s.kings);
    let side = s.turn.other();
    let gs = seq![g0];
    assert(0 <= target_value(s, mv) <= 10000);
    assert(0 <= g0 <= 20000);
    assert(g0 == first_gain(s, mv));
    let a = see_value(role0);
    assert(0 <= a <= 10000);
    assert(a == mover_value(s, mv));
    let f = from as u64;
    assert(f < 64 ==> (1u64 << f) != 0) by (bit_vector);
    let abb = 1u64 << from;
    let z: u64 = 0;
    assert(abb & 0u64 == 0 && attackers & 0u64 == 0) by (bit_vector);
    let (g, depth) = exchange(s, to, slider_mask, occupied, attackers, 0, abb, role0, side, gs);
    let attackers1 = attackers & !abb;
    let occupied1 = occupied & !abb;
    let seen1 = z | abb;
    let attackers2 = if abb & slider_mask != 0 {
        attackers1 | (spec_xray(s, to, occupied1) & !seen1)
    } else {
        attackers1
    };
    if attackers2 & s.color_bb(side) == 0 {
        assert(g == gs.push(0) && depth == 0);
        assert(backprop(g, 0) == g);
    } else {
        lemma_lva_found(s, attackers2, side);
        let (bb, role) = spec_lva(s, attackers2, side)->0;
        let g1 = a.wrapping_sub(g0);
        assert(g1 == a - g0);
        let next_role = role;
        lemma_seen_grows(z, abb);
        lemma_exchange_prefix(s, to, slider_mask, occupied1, attackers2, seen1, bb, next_role, side.other(),
            gs.push(g1));
        assert(gs.push(g1)[0] == g0 && gs.push(g1)[1] == g1);
        assert(g[0] == g0 && g[1] == g1 && 1 <= depth < g.len());
        lemma_backprop_head(g, depth);
        let b = backprop(g, depth);
        assert(0i16.wrapping_sub(g0) == -g0);
        let m = max16(0i16.wrapping_sub(g0), b[1]);
        assert(-g0 <= m <= a - g0);
        assert(0i16.wrapping_sub(m) == -m);
    }
}


/// The exchange always recaptures with a least valuable attacker: when the side has
/// an attacker of some role, the piece chosen exists, is of a role that is among the
/// attackers, and is worth no more than that attacker.
pub proof fn lemma_lva_least_valuable(s: BoardState, attackers: u64, color: Color, other: Role)
    requires
        role_attackers(s, attackers, color, other) != 0,
    ensures
        spec_lva(s, attackers, color) is Some,
        spec_lva(s, attackers, color) matches Some((bb, r)) ==> role_attackers(s, attackers, color, r) != 0
            && see_value(r) <= see_value(other),
{
}

} // verus!
