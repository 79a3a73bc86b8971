//! Chess vocabulary of the library: colors, roles, squares and moves as plain
//! values, and positions that carry a `shakmaty` position together with a plain
//! snapshot of everything the search reads from it.

use vstd::prelude::*;

verus! {

/// Side of a piece or of the player to move.
#[derive(Clone, Copy, PartialEq, Eq, Debug, Structural)]
pub enum Color {
    White,
    Black,
}

impl Color {
    /// The other side.
    #[verifier::allow_in_spec]
    pub fn other(self) -> Color
        returns
            (match self {
                Color::White => Color::Black,
                Color::Black => Color::White,
            }),
    {
        match self {
            Color::White => Color::Black,
            Color::Black => Color::White,
        }
    }

    /// Table index of a side as `shakmaty` numbers them: 0 for black, 1 for white.
    #[verifier::allow_in_spec]
    pub fn repr(self) -> usize
        returns
            (match self {
                Color::White => 1usize,
                Color::Black => 0usize,
            }),
    {
        match self {
            Color::White => 1,
            Color::Black => 0,
        }
    }
}

/// Kind of a piece.
#[derive(Clone, Copy, PartialEq, Eq, Debug, Structural)]
pub enum Role {
    Pawn,
    Knight,
    Bishop,
    Rook,
    Queen,
    King,
}

/// Index of a role in tables ordered pawn, knight, bishop, rook, queen, king.
#[verifier::allow_in_spec]
pub fn role_index(role: Role) -> usize
    returns
        (match role {
            Role::Pawn => 0usize,
            Role::Knight => 1usize,
            Role::Bishop => 2usize,
            Role::Rook => 3usize,
            Role::Queen => 4usize,
            Role::King => 5usize,
        }),
{
    match role {
        Role::Pawn => 0,
        Role::Knight => 1,
        Role::Bishop => 2,
        Role::Rook => 3,
        Role::Queen => 4,
        Role::King => 5,
    }
}

/// The number `shakmaty` gives a role: pawn 1 up to king 6.
pub fn role_code(role: Role) -> (c: u8)
    ensures
        c == role_index(role) + 1,
{
    match role {
        Role::Pawn => 1,
        Role::Knight => 2,
        Role::Bishop => 3,
        Role::Rook => 4,
        Role::Queen => 5,
        Role::King => 6,
    }
}

/// The role `shakmaty` numbers `code` (pawn 1 up to king 6).
pub fn role_from_code(code: u8) -> (r: Role)
    requires
        1 <= code <= 6,
    ensures
        role_index(r) + 1 == code,
{
    if code == 1 {
        Role::Pawn
    } else if code == 2 {
        Role::Knight
    } else if code == 3 {
        Role::Bishop
    } else if code == 4 {
        Role::Rook
    } else if code == 5 {
        Role::Queen
    } else {
        Role::King
    }
}

/// The role at a table index, or `None` past the king.
pub fn role_from_index(idx: usize) -> (r: Option<Role>)
    ensures
        idx < 6 ==> r is Some && role_index(r->0) == idx,
        idx >= 6 ==> r is None,
{
    match idx {
        0 => Some(Role::Pawn),
        1 => Some(Role::Knight),
        2 => Some(Role::Bishop),
        3 => Some(Role::Rook),
        4 => Some(Role::Queen),
        5 => Some(Role::King),
        _ => None,
    }
}

/// A move. Squares are numbered `file + 8 * rank`, a1 = 0, h8 = 63.
#[derive(Clone, Copy, PartialEq, Eq, Debug, Structural)]
pub enum ChessMove {
    Normal { role: Role, from: u8, capture: Option<Role>, to: u8, promotion: Option<Role> },
    EnPassant { from: u8, to: u8 },
    Castle { king: u8, rook: u8 },
    Put { role: Role, to: u8 },
}

impl ChessMove {
    /// Every square named by the move is on the board.
    pub open spec fn wf(self) -> bool {
        match self {
            ChessMove::Normal { from, to, .. } => from < 64 && to < 64,
            ChessMove::EnPassant { from, to } => from < 64 && to < 64,
            ChessMove::Castle { king, rook } => king < 64 && rook < 64,
            ChessMove::Put { to, .. } => to < 64,
        }
    }

    /// Role of the moving piece.
    #[verifier::allow_in_spec]
    pub fn role(&self) -> Role
        returns
            (match *self {
                ChessMove::Normal { role, .. } => role,
                ChessMove::Put { role, .. } => role,
                ChessMove::EnPassant { .. } => Role::Pawn,
                ChessMove::Castle { .. } => Role::King,
            }),
    {
        match *self {
            ChessMove::Normal { role, .. } => role,
            ChessMove::Put { role, .. } => role,
            ChessMove::EnPassant { .. } => Role::Pawn,
            ChessMove::Castle { .. } => Role::King,
        }
    }

    /// Origin square; `None` for drops.
    #[verifier::allow_in_spec]
    pub fn from(&self) -> Option<u8>
        returns
            (match *self {
                ChessMove::Normal { from, .. } => Some(from),
                ChessMove::EnPassant { from, .. } => Some(from),
                ChessMove::Castle { king, .. } => Some(king),
                ChessMove::Put { .. } => None,
            }),
    {
        match *self {
            ChessMove::Normal { from, .. } => Some(from),
            ChessMove::EnPassant { from, .. } => Some(from),
            ChessMove::Castle { king, .. } => Some(king),
            ChessMove::Put { .. } => None,
        }
    }

    /// Target square; the rook's square for castling.
    #[verifier::allow_in_spec]
    pub fn to(&self) -> u8
        returns
            (match *self {
                ChessMove::Normal { to, .. } => to,
                ChessMove::EnPassant { to, .. } => to,
                ChessMove::Put { to, .. } => to,
                ChessMove::Castle { rook, .. } => rook,
            }),
    {
        match *self {
            ChessMove::Normal { to, .. } => to,
            ChessMove::EnPassant { to, .. } => to,
            ChessMove::Put { to, .. } => to,
            ChessMove::Castle { rook, .. } => rook,
        }
    }

    /// Whether the move captures a piece.
    #[verifier::allow_in_spec]
    pub fn is_capture(&self) -> bool
        returns
            (match *self {
                ChessMove::Normal { capture, .. } => capture is Some,
                ChessMove::EnPassant { .. } => true,
                _ => false,
            }),
    {
        match *self {
            ChessMove::Normal { capture, .. } => capture.is_some(),
            ChessMove::EnPassant { .. } => true,
            _ => false,
        }
    }

    /// Whether the move is an en passant capture.
    #[verifier::allow_in_spec]
    pub fn is_en_passant(&self) -> bool
        returns
            (*self is EnPassant),
    {
        match *self {
            ChessMove::EnPassant { .. } => true,
            _ => false,
        }
    }

    /// Promotion role, if any.
    #[verifier::allow_in_spec]
    pub fn promotion(&self) -> Option<Role>
        returns
            (match *self {
                ChessMove::Normal { promotion, .. } => promotion,
                _ => None,
            }),
    {
        match *self {
            ChessMove::Normal { promotion, .. } => promotion,
            _ => None,
        }
    }

    /// Whether the move promotes a pawn.
    #[verifier::allow_in_spec]
    pub fn is_promotion(&self) -> bool
        returns
            (match *self {
                ChessMove::Normal { promotion, .. } => promotion is Some,
                _ => false,
            }),
    {
        match *self {
            ChessMove::Normal { promotion, .. } => promotion.is_some(),
            _ => false,
        }
    }
}

} // verus!

verus! {

// ---------------------------------------------------------------------------
// Bitboards
// ---------------------------------------------------------------------------

/// Whether square `sq` is set in bitboard `bb`.
pub open spec fn bb_has(bb: u64, sq: u8) -> bool {
    (bb >> (sq as u64)) & 1u64 == 1u64
}

/// Whether square `sq` is set in bitboard `bb`.
pub fn bb_contains(bb: u64, sq: u8) -> (r: bool)
    requires
        sq < 64,
    ensures
        r == bb_has(bb, sq),
{
    (bb >> (sq as u64)) & 1u64 == 1u64
}

/// Number of set bits among the lowest `n` bits of `x`.
pub open spec fn popcount_upto(x: u64, n: nat) -> nat
    decreases n,
{
    if n == 0 {
        0
    } else {
        popcount_upto(x, (n - 1) as nat) + if bb_has(x, (n - 1) as u8) { 1nat } else { 0nat }
    }
}

/// Number of set bits of `x`.
pub open spec fn popcount(x: u64) -> nat {
    popcount_upto(x, 64)
}

/// Number of set bits (`u64::count_ones`).
pub fn count_bits(x: u64) -> (r: u32)
    ensures
        r == popcount(x),
        r <= 64,
{
    let mut count: u32 = 0;
    let mut i: u8 = 0;
    while i < 64
        invariant
            i <= 64,
            count == popcount_upto(x, i as nat),
            count <= i,
        decreases 64 - i,
    {
        if bb_contains(x, i) {
            count += 1;
        }
        i += 1;
    }
    count
}

/// Whether exactly one bit of `x` is set.
pub open spec fn single_bit(x: u64) -> bool {
    x != 0 && x & ((x - 1) as u64) == 0
}

// ---------------------------------------------------------------------------
// Board snapshot
// ---------------------------------------------------------------------------

/// Everything about a position as plain values: one bitboard per role and per
/// color, the side to move, the castling rights (as rook squares), the en passant
/// square, and the move clocks.
#[derive(Clone, Copy, PartialEq, Eq, Debug, Structural)]
pub struct BoardState {
    pub pawns: u64,
    pub knights: u64,
    pub bishops: u64,
    pub rooks: u64,
    pub queens: u64,
    pub kings: u64,
    pub white: u64,
    pub black: u64,
    pub turn: Color,
    pub castling_rights: u64,
    pub ep_square: Option<u8>,
    pub halfmoves: u32,
    pub fullmoves: u32,
}

impl BoardState {
    /// Bitboard of a role.
    pub open spec fn role_bb(self, role: Role) -> u64 {
        match role {
            Role::Pawn => self.pawns,
            Role::Knight => self.knights,
            Role::Bishop => self.bishops,
            Role::Rook => self.rooks,
            Role::Queen => self.queens,
            Role::King => self.kings,
        }
    }

    /// Bitboard of a color.
    pub open spec fn color_bb(self, color: Color) -> u64 {
        match color {
            Color::White => self.white,
            Color::Black => self.black,
        }
    }

    /// All occupied squares.
    pub open spec fn occupied(self) -> u64 {
        self.white | self.black
    }

    /// What every position of standard chess satisfies: roles pairwise disjoint,
    /// colors disjoint, the roles cover exactly the occupied squares, one king per
    /// side and at most 32 pieces.
    pub open spec fn wf(self) -> bool {
        &&& self.pawns & self.knights == 0
        &&& (self.pawns | self.knights) & self.bishops == 0
        &&& (self.pawns | self.knights | self.bishops) & self.rooks == 0
        &&& (self.pawns | self.knights | self.bishops | self.rooks) & self.queens == 0
        &&& (self.pawns | self.knights | self.bishops | self.rooks | self.queens) & self.kings == 0
        &&& self.white & self.black == 0
        &&& self.pawns | self.knights | self.bishops | self.rooks | self.queens | self.kings == self.white | self.black
        &&& self.ep_square matches Some(e) ==> e < 64
        &&& single_bit(self.kings & self.white)
        &&& single_bit(self.kings & self.black)
        &&& 2 <= popcount(self.white | self.black) <= 32
    }

    /// Role of the piece on a square, if any (the first role whose bitboard holds it,
    /// king otherwise, as `shakmaty` finds it).
    pub open spec fn spec_role_at(self, sq: u8) -> Option<Role> {
        if !bb_has(self.white | self.black, sq) {
            None
        } else if bb_has(self.pawns, sq) {
            Some(Role::Pawn)
        } else if bb_has(self.knights, sq) {
            Some(Role::Knight)
        } else if bb_has(self.bishops, sq) {
            Some(Role::Bishop)
        } else if bb_has(self.rooks, sq) {
            Some(Role::Rook)
        } else if bb_has(self.queens, sq) {
            Some(Role::Queen)
        } else {
            Some(Role::King)
        }
    }

    /// Color of the piece on a square, if any.
    pub open spec fn spec_color_at(self, sq: u8) -> Option<Color> {
        if bb_has(self.white, sq) {
            Some(Color::White)
        } else if bb_has(self.black, sq) {
            Some(Color::Black)
        } else {
            None
        }
    }

    /// Role of the piece on a square, if any.
    pub fn role_at(&self, sq: u8) -> (r: Option<Role>)
        requires
            sq < 64,
        ensures
            r == self.spec_role_at(sq),
    {
        if !bb_contains(self.white | self.black, sq) {
            None
        } else if bb_contains(self.pawns, sq) {
            Some(Role::Pawn)
        } else if bb_contains(self.knights, sq) {
            Some(Role::Knight)
        } else if bb_contains(self.bishops, sq) {
            Some(Role::Bishop)
        } else if bb_contains(self.rooks, sq) {
            Some(Role::Rook)
        } else if bb_contains(self.queens, sq) {
            Some(Role::Queen)
        } else {
            Some(Role::King)
        }
    }

    /// Color of the piece on a square, if any.
    pub fn color_at(&self, sq: u8) -> (r: Option<Color>)
        requires
            sq < 64,
        ensures
            r == self.spec_color_at(sq),
    {
        if bb_contains(self.white, sq) {
            Some(Color::White)
        } else if bb_contains(self.black, sq) {
            Some(Color::Black)
        } else {
            None
        }
    }

    /// Bitboard of a role.
    pub fn by_role(&self, role: Role) -> (r: u64)
        ensures
            r == self.role_bb(role),
    {
        match role {
            Role::Pawn => self.pawns,
            Role::Knight => self.knights,
            Role::Bishop => self.bishops,
            Role::Rook => self.rooks,
            Role::Queen => self.queens,
            Role::King => self.kings,
        }
    }

    /// Bitboard of a color.
    pub fn by_color(&self, color: Color) -> (r: u64)
        ensures
            r == self.color_bb(color),
    {
        match color {
            Color::White => self.white,
            Color::Black => self.black,
        }
    }
}

/// Whether every legal move of a position names squares on the board, starts from a
/// square holding a piece of the side to move with the move's role, and, if it castles,
/// has the king on the e-file and the rook on the a- or h-file (standard castling).
pub open spec fn moves_well_formed(s: BoardState, moves: Seq<ChessMove>) -> bool {
    forall|i: int|
        0 <= i < moves.len() ==> {
            let m = #[trigger] moves[i];
            &&& m.wf()
            &&& m.from() is Some
            &&& s.spec_role_at(m.from()->0) == Some(m.role())
            &&& s.spec_color_at(m.from()->0) == Some(s.turn)
            &&& m matches ChessMove::Castle { king, rook } ==> king % 8 == 4 && (rook % 8 == 0 || rook % 8 == 7)
        }
}


/// A square set in one of six bitboards is set in their union.
pub proof fn lemma_bit_in_union6(p: u64, n: u64, b: u64, r: u64, q: u64, k: u64, sq: u8)
    requires
        sq < 64,
    ensures
        (bb_has(p, sq) || bb_has(n, sq) || bb_has(b, sq) || bb_has(r, sq) || bb_has(q, sq) || bb_has(k, sq))
            <==> bb_has(p | n | b | r | q | k, sq),
{
    let s = sq as u64;
    assert((((p >> s) & 1u64 == 1u64) || ((n >> s) & 1u64 == 1u64) || ((b >> s) & 1u64 == 1u64)
        || ((r >> s) & 1u64 == 1u64) || ((q >> s) & 1u64 == 1u64) || ((k >> s) & 1u64 == 1u64))
        <==> (((p | n | b | r | q | k) >> s) & 1u64 == 1u64)) by (bit_vector)
        requires
            s < 64,
    ;
}

/// A square set in the union of two bitboards is set in one of them.
pub proof fn lemma_bit_of_union2(a: u64, b: u64, sq: u8)
    requires
        sq < 64,
    ensures
        bb_has(a | b, sq) <==> (bb_has(a, sq) || bb_has(b, sq)),
{
    let s = sq as u64;
    assert((((a | b) >> s) & 1u64 == 1u64) <==> (((a >> s) & 1u64 == 1u64) || ((b >> s) & 1u64 == 1u64))) by (bit_vector)
        requires
            s < 64,
    ;
}

/// A square set in `a & !p & !k` is set in `a` and in neither `p` nor `k`.
pub proof fn lemma_bit_and_not2(a: u64, p: u64, k: u64, sq: u8)
    requires
        sq < 64,
    ensures
        bb_has(a & !p & !k, sq) <==> (bb_has(a, sq) && !bb_has(p, sq) && !bb_has(k, sq)),
{
    let s = sq as u64;
    assert(((((a & !p & !k) >> s) & 1u64) == 1u64) <==> (((a >> s) & 1u64 == 1u64) && !((p >> s) & 1u64 == 1u64)
        && !((k >> s) & 1u64 == 1u64))) by (bit_vector)
        requires
            s < 64,
    ;
}

impl BoardState {
    /// On a well-formed board, a square holding a piece of some role has a color
    /// and a role.
    pub proof fn lemma_piece_present(self, sq: u8, role: Role)
        requires
            self.wf(),
            sq < 64,
            bb_has(self.role_bb(role), sq),
        ensures
            self.spec_color_at(sq) is Some,
            self.spec_role_at(sq) is Some,
            bb_has(self.occupied(), sq),
    {
        lemma_bit_in_union6(self.pawns, self.knights, self.bishops, self.rooks, self.queens, self.kings, sq);
        lemma_bit_of_union2(self.white, self.black, sq);
    }

    /// On a well-formed board, an occupied square holds a piece of exactly the role
    /// `spec_role_at` names, and that role's bitboard holds the square.
    pub proof fn lemma_occupied_role(self, sq: u8)
        requires
            self.wf(),
            sq < 64,
            bb_has(self.occupied(), sq),
        ensures
            self.spec_color_at(sq) is Some,
            self.spec_role_at(sq) is Some,
            bb_has(self.role_bb(self.spec_role_at(sq)->0), sq),
    {
        lemma_bit_in_union6(self.pawns, self.knights, self.bishops, self.rooks, self.queens, self.kings, sq);
        lemma_bit_of_union2(self.white, self.black, sq);
    }
}


/// Square of the lowest set bit of `x` (64 for 0).
pub open spec fn lowest_square(x: u64) -> u32 {
    vstd::std_specs::bits::u64_trailing_zeros(x)
}

impl BoardState {
    /// Square of the king of `color`.
    pub open spec fn spec_king_of(self, color: Color) -> u8 {
        lowest_square(self.kings & self.color_bb(color)) as u8
    }

    /// Square of the king of `color` (each side has exactly one).
    pub fn king_of(&self, color: Color) -> (r: u8)
        requires
            self.wf(),
        ensures
            r == self.spec_king_of(color),
            r < 64,
            bb_has(self.kings & self.color_bb(color), r),
    {
        let k = self.kings & self.by_color(color);
        proof {
            vstd::std_specs::bits::axiom_u64_trailing_zeros(k);
        }
        let t = k.trailing_zeros();
        t as u8
    }
}

} // verus!

