//! Positions: a `shakmaty` position carried together with a plain snapshot of it.
//! Everything the library decides is read from the snapshot; move generation,
//! playing moves, hashing and FEN/UCI text come from `shakmaty` through the
//! trusted items below, whose results are named as functions of the snapshot.

use vstd::prelude::*;
use crate::chess::{BoardState, ChessMove, Color, Role, moves_well_formed, popcount};
use shakmaty::Position as _;
use shakmaty::{Move as SMove, Role as SRole, Square as SSquare};
use shakmaty::zobrist::ZobristHash as _;

verus! {

#[verifier::external_type_specification]
#[verifier::external_body]
pub struct ExChess(shakmaty::Chess);

#[verifier::external_type_specification]
#[verifier::external_body]
pub struct ExMove(shakmaty::Move);

// ---------------------------------------------------------------------------
// Names for what shakmaty computes
// ---------------------------------------------------------------------------

/// Legal moves of a position, in `shakmaty`'s generation order.
pub uninterp spec fn spec_legal_moves(s: BoardState) -> Seq<ChessMove>;

/// Position after playing a legal move.
pub uninterp spec fn spec_play(s: BoardState, m: ChessMove) -> BoardState;

/// 64-bit Zobrist hash of a position (legal en passant squares only).
pub uninterp spec fn spec_zobrist(s: BoardState) -> u64;

/// Whether the side to move is in check.
pub uninterp spec fn spec_is_check(s: BoardState) -> bool;

/// Whether neither side has sufficient material to mate.
pub uninterp spec fn spec_insufficient_material(s: BoardState) -> bool;

/// Position that a FEN text describes, if it is a valid standard chess position.
pub uninterp spec fn spec_from_fen(text: Seq<char>) -> Option<BoardState>;

/// FEN text of a position.
pub uninterp spec fn spec_fen(s: BoardState) -> Seq<char>;

/// UCI text of a move.
pub uninterp spec fn spec_move_to_uci(m: ChessMove) -> Seq<char>;

/// Legal move that a UCI text names in a position, if any.
pub uninterp spec fn spec_uci_to_move(s: BoardState, text: Seq<char>) -> Option<ChessMove>;

/// Squares a rook on `sq` attacks with the given occupancy.
pub uninterp spec fn spec_rook_attacks(sq: u8, occupied: u64) -> u64;

/// Squares a bishop on `sq` attacks with the given occupancy.
pub uninterp spec fn spec_bishop_attacks(sq: u8, occupied: u64) -> u64;

/// Pieces of `attacker` that attack `sq` with the given occupancy.
pub uninterp spec fn spec_attacks_to(s: BoardState, sq: u8, attacker: Color, occupied: u64) -> u64;

/// Number of leaf nodes of the legal move tree of the given depth.
pub uninterp spec fn spec_perft(s: BoardState, depth: u32) -> u64;

/// The initial position of a game of chess.
pub open spec fn start_state() -> BoardState {
    BoardState {
        pawns: 0x00ff_0000_0000_ff00,
        knights: 0x4200_0000_0000_0042,
        bishops: 0x2400_0000_0000_0024,
        rooks: 0x8100_0000_0000_0081,
        queens: 0x0800_0000_0000_0008,
        kings: 0x1000_0000_0000_0010,
        white: 0x0000_0000_0000_ffff,
        black: 0xffff_0000_0000_0000,
        turn: Color::White,
        castling_rights: 0x8100_0000_0000_0081,
        ep_square: None,
        halfmoves: 0,
        fullmoves: 1,
    }
}

// ---------------------------------------------------------------------------
// Position
// ---------------------------------------------------------------------------

/// A legal chess position.
pub struct Position {
    chess: shakmaty::Chess,
    state: BoardState,
}

impl View for Position {
    type V = BoardState;

    closed spec fn view(&self) -> BoardState {
        self.state
    }
}

/// Builds the library's position from a `shakmaty` position, reading its board
/// bitboards, side to move, castling rights, en passant square and clocks
/// (`Board::into_bitboards`, `turn`, `Castles::castling_rights`, `maybe_ep_square`,
/// `halfmoves`, `fullmoves`). Trusted: the snapshot satisfies `BoardState::wf`, the
/// invariant of `shakmaty::Board` together with what `shakmaty` validates of every
/// standard chess position (one king per side, at most sixteen pieces per side), which
/// legal moves preserve.
#[verifier::external_body]
fn position_from_chess(chess: shakmaty::Chess) -> (r: Position)
    ensures
        r@.wf(),
{
    let (ro, co) = chess.board().clone().into_bitboards();
    let turn = match chess.turn() { shakmaty::Color::White => Color::White, shakmaty::Color::Black => Color::Black };
    let state = BoardState { pawns: ro.pawn.0, knights: ro.knight.0, bishops: ro.bishop.0, rooks: ro.rook.0,
        queens: ro.queen.0, kings: ro.king.0, white: co.white.0, black: co.black.0, turn,
        castling_rights: chess.castles().castling_rights().0, ep_square: chess.maybe_ep_square().map(u8::from),
        halfmoves: chess.halfmoves(), fullmoves: chess.fullmoves().get() };
    Position { chess, state }
}

/// Converts a `shakmaty` move into the library's move (`Square` to its index, a
/// role through its number, `u8::from`). Trusted: squares are always below 64.
#[verifier::external_body]
fn move_from_shakmaty(m: SMove) -> (r: ChessMove)
    ensures
        r.wf(),
{
    let role = |r: SRole| crate::chess::role_from_code(u8::from(r));
    match m {
        SMove::Normal { role: ro, from, capture, to, promotion } => ChessMove::Normal { role: role(ro),
            from: from as u8, capture: capture.map(role), to: to as u8, promotion: promotion.map(role) },
        SMove::EnPassant { from, to } => ChessMove::EnPassant { from: from as u8, to: to as u8 },
        SMove::Castle { king, rook } => ChessMove::Castle { king: king as u8, rook: rook as u8 },
        SMove::Put { role: ro, to } => ChessMove::Put { role: role(ro), to: to as u8 },
    }
}

/// Converts the library's move into a `shakmaty` move (`Square::new` on each
/// square index, a role through its number, `Role::try_from`).
#[verifier::external_body]
fn move_to_shakmaty(m: &ChessMove) -> (r: SMove)
    requires
        m.wf(),
{
    let sq = |s: u8| SSquare::new(s as u32);
    let role = |r: Role| SRole::try_from(crate::chess::role_code(r)).unwrap();
    match *m {
        ChessMove::Normal { role: ro, from, capture, to, promotion } => SMove::Normal { role: role(ro),
            from: sq(from), capture: capture.map(role), to: sq(to), promotion: promotion.map(role) },
        ChessMove::EnPassant { from, to } => SMove::EnPassant { from: sq(from), to: sq(to) },
        ChessMove::Castle { king, rook } => SMove::Castle { king: sq(king), rook: sq(rook) },
        ChessMove::Put { role: ro, to } => SMove::Put { role: role(ro), to: sq(to) },
    }
}

impl Position {
    /// The plain snapshot of the position.
    pub fn state(&self) -> (r: &BoardState)
        ensures
            *r == self@,
    {
        &self.state
    }

    /// The initial position (`shakmaty::Chess::new`).
    #[verifier::external_body]
    pub fn new() -> (r: Position)
        ensures
            r@ == start_state(),
            r@.wf(),
    {
        position_from_chess(shakmaty::Chess::new())
    }

    /// A copy of the position (`Chess::clone`).
    #[verifier::external_body]
    pub fn clone_position(&self) -> (r: Position)
        ensures
            r@ == self@,
    {
        Position { chess: self.chess.clone(), state: self.state }
    }

    /// Legal moves in `shakmaty`'s order (`Position::legal_moves`). Trusted: each
    /// names on-board squares and starts from a piece of the side to move with the
    /// move's role; castling moves have the king on the e-file and the rook in a
    /// corner, as every position here is set up with `CastlingMode::Standard`; a
    /// `MoveList` holds at most 256 moves.
    #[verifier::external_body]
    pub fn legal_moves(&self) -> (r: Vec<ChessMove>)
        ensures
            r@ == spec_legal_moves(self@),
            moves_well_formed(self@, r@),
            r@.len() <= 256,
    {
        self.chess.legal_moves().into_iter().map(move_from_shakmaty).collect()
    }

    /// The legal moves that capture (`Position::capture_moves`: the legal moves,
    /// in order, that `is_capture`), well formed as `legal_moves` states; a `MoveList`
    /// holds at most 256 moves.
    #[verifier::external_body]
    pub fn capture_moves(&self) -> (r: Vec<ChessMove>)
        ensures
            r@ == spec_legal_moves(self@).filter(|m: ChessMove| m.is_capture()),
            moves_well_formed(self@, r@),
            r@.len() <= 256,
    {
        self.chess.capture_moves().into_iter().map(move_from_shakmaty).collect()
    }

    /// The position after a legal move (`Position::play_unchecked`); a capture takes
    /// exactly one piece off the board.
    #[verifier::external_body]
    pub fn play(&self, mv: ChessMove) -> (r: Position)
        requires
            spec_legal_moves(self@).contains(mv),
        ensures
            r@ == spec_play(self@, mv),
            r@.wf(),
            mv.is_capture() ==> popcount(r@.white | r@.black) + 1 == popcount(self@.white | self@.black),
    {
        let mut chess = self.chess.clone();
        chess.play_unchecked(move_to_shakmaty(&mv));
        position_from_chess(chess)
    }

    /// Zobrist hash (`zobrist_hash::<Zobrist64>(EnPassantMode::Legal)`).
    #[verifier::external_body]
    pub fn zobrist(&self) -> (r: u64)
        ensures
            r == spec_zobrist(self@),
    {
        self.chess.zobrist_hash::<shakmaty::zobrist::Zobrist64>(shakmaty::EnPassantMode::Legal).0
    }

    /// Whether the side to move is in check (`Position::is_check`).
    #[verifier::external_body]
    pub fn is_check(&self) -> (r: bool)
        ensures
            r == spec_is_check(self@),
    {
        self.chess.is_check()
    }

    /// Checkmate: in check with no legal move (`Position::is_checkmate`).
    #[verifier::external_body]
    pub fn is_checkmate(&self) -> (r: bool)
        ensures
            r == (spec_is_check(self@) && spec_legal_moves(self@).len() == 0),
    {
        self.chess.is_checkmate()
    }

    /// Stalemate: not in check with no legal move (`Position::is_stalemate`).
    #[verifier::external_body]
    pub fn is_stalemate(&self) -> (r: bool)
        ensures
            r == (!spec_is_check(self@) && spec_legal_moves(self@).len() == 0),
    {
        self.chess.is_stalemate()
    }

    /// Insufficient mating material on both sides (`Position::is_insufficient_material`).
    #[verifier::external_body]
    pub fn is_insufficient_material(&self) -> (r: bool)
        ensures
            r == spec_insufficient_material(self@),
    {
        self.chess.is_insufficient_material()
    }

    /// The same position with the other side to move and no en passant square
    /// (`Position::swap_turn`), which exists exactly when the side to move is not in check.
    #[verifier::external_body]
    pub fn swap_turn(&self) -> (r: Option<Position>)
        ensures
            r is Some <==> !spec_is_check(self@),
            r matches Some(p) ==> p@ == (BoardState { turn: self@.turn.other(), ep_square: None, ..self@ }),
    {
        self.chess.clone().swap_turn().ok().map(position_from_chess)
    }

    /// Pieces of `attacker` attacking `sq` with the given occupancy (`Board::attacks_to`);
    /// they are always pieces of `attacker`.
    #[verifier::external_body]
    pub fn attacks_to(&self, sq: u8, attacker: Color, occupied: u64) -> (r: u64)
        requires
            sq < 64,
        ensures
            r == spec_attacks_to(self@, sq, attacker, occupied),
            r & self@.color_bb(attacker) == r,
    {
        let color = match attacker { Color::White => shakmaty::Color::White, Color::Black => shakmaty::Color::Black };
        self.chess.board().attacks_to(shakmaty::Square::new(sq as u32), color, shakmaty::Bitboard(occupied)).0
    }

    /// FEN text of the position (`Fen::from_position` with legal en passant squares).
    #[verifier::external_body]
    pub fn fen(&self) -> (r: String)
        ensures
            r@ == spec_fen(self@),
    {
        shakmaty::fen::Fen::from_position(&self.chess, shakmaty::EnPassantMode::Legal).to_string()
    }
}

/// Rook attacks from `sq` (`attacks::rook_attacks`).
#[verifier::external_body]
pub fn rook_attacks(sq: u8, occupied: u64) -> (r: u64)
    requires
        sq < 64,
    ensures
        r == spec_rook_attacks(sq, occupied),
{
    shakmaty::attacks::rook_attacks(shakmaty::Square::new(sq as u32), shakmaty::Bitboard(occupied)).0
}

/// Bishop attacks from `sq` (`attacks::bishop_attacks`).
#[verifier::external_body]
pub fn bishop_attacks(sq: u8, occupied: u64) -> (r: u64)
    requires
        sq < 64,
    ensures
        r == spec_bishop_attacks(sq, occupied),
{
    shakmaty::attacks::bishop_attacks(shakmaty::Square::new(sq as u32), shakmaty::Bitboard(occupied)).0
}

/// The standard chess position a FEN text describes (`Fen::from_str`, then
/// `into_position` with standard castling), or `None` if either step fails.
#[verifier::external_body]
pub fn read_position_from_fen(fen_str: &str) -> (r: Option<Position>)
    ensures
        r is Some <==> spec_from_fen(fen_str@) is Some,
        r matches Some(p) ==> p@ == spec_from_fen(fen_str@)->0 && p@.wf(),
{
    let fen: shakmaty::fen::Fen = fen_str.parse().ok()?;
    fen.into_position::<shakmaty::Chess>(shakmaty::CastlingMode::Standard).ok().map(position_from_chess)
}

/// UCI text of a move (`Move::to_uci` with standard castling notation).
#[verifier::external_body]
pub fn move_to_uci(mv: &ChessMove) -> (r: String)
    requires
        mv.wf(),
    ensures
        r@ == spec_move_to_uci(*mv),
{
    move_to_shakmaty(mv).to_uci(shakmaty::CastlingMode::Standard).to_string()
}

/// The legal move that a UCI text names in a position (`UciMove::from_str`, then
/// `UciMove::to_move`), or `None` if the text is malformed or the move is illegal.
#[verifier::external_body]
pub fn uci_to_move(pos: &Position, s: &str) -> (r: Option<ChessMove>)
    ensures
        r == spec_uci_to_move(pos@, s@),
        r matches Some(m) ==> spec_legal_moves(pos@).contains(m),
{
    let uci: shakmaty::uci::UciMove = s.parse().ok()?;
    uci.to_move(&pos.chess).ok().map(move_from_shakmaty)
}

/// Leaf count of the legal move tree (`shakmaty::perft`).
#[verifier::external_body]
pub fn perft(pos: &Position, depth: u32) -> (r: u64)
    ensures
        r == spec_perft(pos@, depth),
{
    shakmaty::perft(&pos.chess, depth)
}

} // verus!
