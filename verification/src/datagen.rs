//! Training-data generation: which positions of a self-play game are kept, when a
//! game is adjudicated, how its result is read off a final position, the text
//! record of a kept position, the opening book, and the game loop itself.

use vstd::prelude::*;
use std::sync::Arc;
use std::sync::atomic::{AtomicBool, AtomicU64};
use crate::chess::{BoardState, ChessMove, Color};
use crate::position::{Position, spec_is_check, spec_legal_moves, spec_fen,
    read_position_from_fen, spec_from_fen};
use crate::random::random_below;
use crate::context::{SearchContext, build_search_context};
use crate::flags::read_counter;
use crate::network::Network;
use crate::nnue_state::NNUEState;
use crate::ordering::MoveOrdering;
use crate::params::{Params, params_ok};
use crate::pv::PvTable;
use crate::search::{SearchObserver, search, result_bound, negamax, quiescence, restored};
use crate::tt::TranspositionTable;
use crate::hash::spec_pawnhash;
use rand::rngs::ThreadRng;
use crate::text::{dec, hex, signed_dec, push_decimal, push_hex, push_signed, views, tokens, split_tokens,
    pieces, split_n, nth_find, prefix_before_nth};

verus! {

// ---------------------------------------------------------------------------
// Which positions are kept
// ---------------------------------------------------------------------------

/// Why a position is left out of the training data, or `Keep`.
#[derive(Debug, PartialEq, Eq, Structural, Clone, Copy)]
pub enum FilterResult {
    Keep,
    InCheck,
    IsCapture,
    IsMateScore,
    IsPromotion,
}

/// The verdict on a position from whether its side to move is in check, the move
/// the search chose, its score and the mate threshold: a check, then a capture,
/// then a promotion, then a score at or beyond the threshold leaves it out.
pub open spec fn spec_filter_position(in_check: bool, best_move: ChessMove, score: int, mate_threshold: int)
    -> FilterResult {
    if in_check {
        FilterResult::InCheck
    } else if best_move.is_capture() {
        FilterResult::IsCapture
    } else if best_move.is_promotion() {
        FilterResult::IsPromotion
    } else if (if score < 0 { -score } else { score }) >= mate_threshold {
        FilterResult::IsMateScore
    } else {
        FilterResult::Keep
    }
}

/// Decides whether a position is recorded for training: not when its side to move
/// is in check, nor when the chosen move captures or promotes, nor when its score
/// is a mate score.
pub fn filter_position(pos: &Position, best_move: &ChessMove, score: i16, mate_threshold: i16) -> (r: FilterResult)
    requires
        score != i16::MIN,
    ensures
        r == spec_filter_position(spec_is_check(pos@), *best_move, score as int, mate_threshold as int),
{
    if pos.is_check() {
        return FilterResult::InCheck;
    }
    if best_move.is_capture() {
        return FilterResult::IsCapture;
    }
    if best_move.is_promotion() {
        return FilterResult::IsPromotion;
    }
    let magnitude: i16 = if score < 0 { -score } else { score };
    if magnitude >= mate_threshold {
        return FilterResult::IsMateScore;
    }
    FilterResult::Keep
}

// ---------------------------------------------------------------------------
// Game results
// ---------------------------------------------------------------------------

/// Result of a game from White's point of view (written 1, 0.5 and 0).
#[derive(Debug, PartialEq, Eq, Structural, Clone, Copy)]
pub enum GameResult {
    WhiteWin,
    Draw,
    BlackWin,
}

/// Settings of a data generation run.
pub struct DatagenConfig {
    /// Nodes searched per move.
    pub nodes_per_move: u64,
    /// Worker threads.
    pub num_threads: usize,
    /// Upper bound (exclusive) on the random plies played at the start of a game.
    pub random_opening_plies: usize,
    /// Positions to generate over all threads.
    pub target_positions: u64,
    /// White-relative score beyond which a game is adjudicated as won.
    pub adjudication_score: i32,
    /// Consecutive plies a score must stay beyond a threshold for adjudication.
    pub adjudication_plies: usize,
    /// Score within which a game is adjudicated as drawn.
    pub draw_adjudication_score: i32,
    /// Opening book, if any.
    pub epd_path: Option<String>,
    /// Network of the first engine.
    pub net_0_path: String,
    /// Network of the second engine.
    pub net_1_path: String,
    /// Directory the position files go to.
    pub output_dir: String,
}

impl Clone for DatagenConfig {
    fn clone(&self) -> (r: Self)
        ensures
            r.nodes_per_move == self.nodes_per_move,
            r.num_threads == self.num_threads,
            r.random_opening_plies == self.random_opening_plies,
            r.target_positions == self.target_positions,
            r.adjudication_score == self.adjudication_score,
            r.adjudication_plies == self.adjudication_plies,
            r.draw_adjudication_score == self.draw_adjudication_score,
            r.epd_path.is_some() == self.epd_path.is_some(),
            r.epd_path matches Some(p) ==> p@ == self.epd_path->0@,
            r.net_0_path@ == self.net_0_path@,
            r.net_1_path@ == self.net_1_path@,
            r.output_dir@ == self.output_dir@,
    {
        let epd_path = match &self.epd_path {
            Some(p) => Some(p.clone()),
            None => None,
        };
        DatagenConfig {
            nodes_per_move: self.nodes_per_move,
            num_threads: self.num_threads,
            random_opening_plies: self.random_opening_plies,
            target_positions: self.target_positions,
            adjudication_score: self.adjudication_score,
            adjudication_plies: self.adjudication_plies,
            draw_adjudication_score: self.draw_adjudication_score,
            epd_path,
            net_0_path: self.net_0_path.clone(),
            net_1_path: self.net_1_path.clone(),
            output_dir: self.output_dir.clone(),
        }
    }
}

impl DatagenConfig {
    /// The default run: 20000 nodes per move, 10 threads, up to 10 random opening
    /// plies, ten million positions, adjudication at 2000 cp over 10 plies, draw
    /// adjudication within 10 cp, no book.
    pub fn default() -> (r: DatagenConfig)
        ensures
            r.nodes_per_move == 20_000,
            r.num_threads == 10,
            r.random_opening_plies == 10,
            r.target_positions == 10_000_000,
            r.adjudication_score == 2000,
            r.adjudication_plies == 10,
            r.draw_adjudication_score == 10,
            r.epd_path is None,
            r.net_0_path@ == "../../nnue/run8_2_net_0/run8_2_net_0-10/quantised.bin"@,
            r.net_1_path@ == "../../nnue/run8_2_net_0/run8_2_net_0-10/quantised.bin"@,
            r.output_dir@ == "C:/Users/warre/RustroverProjects/FastPeaPea/nnue/data/run8_3"@,
    {
        DatagenConfig {
            nodes_per_move: 20_000,
            num_threads: 10,
            random_opening_plies: 10,
            target_positions: 10_000_000,
            adjudication_score: 2000,
            adjudication_plies: 10,
            draw_adjudication_score: 10,
            epd_path: None,
            net_0_path: String::from_str("../../nnue/run8_2_net_0/run8_2_net_0-10/quantised.bin"),
            net_1_path: String::from_str("../../nnue/run8_2_net_0/run8_2_net_0-10/quantised.bin"),
            output_dir: String::from_str("C:/Users/warre/RustroverProjects/FastPeaPea/nnue/data/run8_3"),
        }
    }
}

// ---------------------------------------------------------------------------
// Adjudication
// ---------------------------------------------------------------------------

/// The last `n` scores of a history.
pub open spec fn recent(history: Seq<i32>, n: int) -> Seq<i32> {
    history.subrange(history.len() - n, history.len() as int)
}

/// Whether every score of `w` is above `a`.
pub open spec fn all_above(w: Seq<i32>, a: int) -> bool {
    forall|k: int| 0 <= k < w.len() ==> #[trigger] w[k] > a
}

/// Whether every score of `w` is below `b`.
pub open spec fn all_below(w: Seq<i32>, b: int) -> bool {
    forall|k: int| 0 <= k < w.len() ==> #[trigger] w[k] < b
}

/// Magnitude of a score.
pub open spec fn magnitude(s: int) -> int {
    if s < 0 { -s } else { s }
}

/// Whether every score of `w` is within `d` of zero.
pub open spec fn all_within(w: Seq<i32>, d: int) -> bool {
    forall|k: int| 0 <= k < w.len() ==> magnitude(#[trigger] w[k] as int) <= d
}

/// The adjudication of a game from its white-relative score history: none before
/// `plies` scores; a White win when the last `plies` are all above the threshold, a
/// Black win when they are all below its negation, a draw when they all lie within
/// the draw margin.
pub open spec fn spec_adjudication(history: Seq<i32>, plies: int, score: int, draw_score: int)
    -> Option<GameResult> {
    if history.len() < plies {
        None
    } else if all_above(recent(history, plies), score) {
        Some(GameResult::WhiteWin)
    } else if all_below(recent(history, plies), -score) {
        Some(GameResult::BlackWin)
    } else if all_within(recent(history, plies), draw_score) {
        Some(GameResult::Draw)
    } else {
        None
    }
}

/// Whether the draw test, which takes the magnitude of each recent score in turn
/// until one is outside the margin, reaches `i32::MIN`, whose magnitude overflows.
pub open spec fn draw_test_overflows(history: Seq<i32>, plies: int, score: int, draw_score: int) -> bool {
    let w = recent(history, plies);
    &&& history.len() >= plies
    &&& !all_above(w, score)
    &&& !all_below(w, -score)
    &&& exists|k: int| 0 <= k < w.len() && w[k] == i32::MIN
        && forall|j: int| 0 <= j < k ==> magnitude(#[trigger] w[j] as int) <= draw_score
}

/// Adjudicates a game from its white-relative score history (see
/// `spec_adjudication`).
pub fn check_adjudication(score_history: &Vec<i32>, config: &DatagenConfig) -> (r: Option<GameResult>)
    requires
        config.adjudication_score > i32::MIN || score_history@.len() < config.adjudication_plies
            || all_above(recent(score_history@, config.adjudication_plies as int), config.adjudication_score as int),
        !draw_test_overflows(score_history@, config.adjudication_plies as int, config.adjudication_score as int,
            config.draw_adjudication_score as int),
    ensures
        r == spec_adjudication(score_history@, config.adjudication_plies as int, config.adjudication_score as int,
            config.draw_adjudication_score as int),
{
    let n = config.adjudication_plies;
    let len = score_history.len();
    if len < n {
        return None;
    }
    let start = len - n;
    let ghost w = recent(score_history@, n as int);
    let a = config.adjudication_score;
    let mut i: usize = start;
    let mut above = true;
    while i < len
        invariant_except_break
            start <= i <= len,
            above,
            forall|k: int| start <= k < i ==> #[trigger] score_history@[k] > a,
        invariant
            len == score_history@.len(),
            start == len - n,
            w == recent(score_history@, n as int),
        ensures
            above <==> all_above(w, a as int),
        decreases len - i,
    {
        if score_history[i] <= a {
            proof {
                assert(w[i - start] == score_history@[i as int]);
            }
            above = false;
            break;
        }
        i += 1;
    }
    if above {
        return Some(GameResult::WhiteWin);
    }
    let neg_a = -a;
    let mut i: usize = start;
    let mut below = true;
    while i < len
        invariant_except_break
            start <= i <= len,
            below,
            forall|k: int| start <= k < i ==> #[trigger] score_history@[k] < neg_a,
        invariant
            len == score_history@.len(),
            start == len - n,
            w == recent(score_history@, n as int),
            neg_a == -a,
        ensures
            below <==> all_below(w, -a),
        decreases len - i,
    {
        if score_history[i] >= neg_a {
            proof {
                assert(w[i - start] == score_history@[i as int]);
            }
            below = false;
            break;
        }
        i += 1;
    }
    if below {
        return Some(GameResult::BlackWin);
    }
    let d = config.draw_adjudication_score;
    let mut i: usize = start;
    let mut within = true;
    while i < len
        invariant_except_break
            start <= i <= len,
            within,
            forall|k: int| start <= k < i ==> magnitude(#[trigger] score_history@[k] as int) <= d,
        invariant
            len == score_history@.len(),
            start == len - n,
            w == recent(score_history@, n as int),
            !all_above(w, a as int),
            !all_below(w, -a),
            !draw_test_overflows(score_history@, n as int, a as int, d as int),
        ensures
            within <==> all_within(w, d as int),
        decreases len - i,
    {
        let s = score_history[i];
        proof {
            assert(w[i - start] == s);
            if s == i32::MIN {
                assert forall|j: int| 0 <= j < i - start implies magnitude(#[trigger] w[j] as int) <= d by {
                    assert(w[j] == score_history@[start + j]);
                }
                assert(false);
            }
        }
        let m: i32 = if s < 0 { -s } else { s };
        if m > d {
            within = false;
            break;
        }
        i += 1;
    }
    if within {
        return Some(GameResult::Draw);
    }
    None
}

/// The result of a game that ended in `s`: with no legal move, a mate is a loss for
/// the side to move and otherwise a stalemate draw; with legal moves left, a draw.
pub open spec fn spec_terminal_result(s: BoardState) -> GameResult {
    if spec_legal_moves(s).len() == 0 && spec_is_check(s) {
        if s.turn == Color::White { GameResult::BlackWin } else { GameResult::WhiteWin }
    } else {
        GameResult::Draw
    }
}

/// The result, from White's point of view, of a game that ended in `pos`.
pub fn terminal_wdl(pos: &Position) -> (r: GameResult)
    ensures
        r == spec_terminal_result(pos@),
{
    let legal_moves = pos.legal_moves();
    if legal_moves.len() == 0 {
        if pos.is_check() {
            if pos.state().turn == Color::White {
                GameResult::BlackWin
            } else {
                GameResult::WhiteWin
            }
        } else {
            GameResult::Draw
        }
    } else {
        GameResult::Draw
    }
}

// ---------------------------------------------------------------------------
// Records
// ---------------------------------------------------------------------------

/// One kept position of a game: its FEN without the move counters, its
/// white-relative score, the game's result, the side to move, which network
/// searched it, how many plies into the game it stands, the nodes of that search,
/// and a pawn-structure hash.
pub struct RawPosition {
    pub fen: String,
    pub score: i32,
    pub wdl: GameResult,
    pub stm: Color,
    pub net_id: u8,
    pub ply: usize,
    pub nodes: u64,
    pub pawn_hash: u64,
}

/// A FEN without its move counters: the text before its fourth space.
pub open spec fn fen_without_counters(fen: Seq<char>) -> Seq<char> {
    fen.subrange(0, nth_find(fen, ' ', 0, 4))
}

/// How a side to move is written: `w` or `b`.
pub open spec fn stm_text(c: Color) -> Seq<char> {
    match c {
        Color::White => seq!['w'],
        Color::Black => seq!['b'],
    }
}

/// How a result is written: `1`, `0.5` or `0`.
pub open spec fn wdl_text(r: GameResult) -> Seq<char> {
    match r {
        GameResult::WhiteWin => seq!['1'],
        GameResult::Draw => seq!['0', '.', '5'],
        GameResult::BlackWin => seq!['0'],
    }
}

/// The text record of a position, `fen|score|wdl|stm|net_id|ply|nodes|pawn_hash`:
/// its fields separated by `|`, the pawn hash as sixteen lowercase hexadecimal digits.
pub open spec fn record_line(p: RawPosition) -> Seq<char> {
    p.fen@ + seq!['|'] + signed_dec(p.score as int) + seq!['|'] + wdl_text(p.wdl) + seq!['|']
        + stm_text(p.stm) + seq!['|'] + dec(p.net_id as nat) + seq!['|'] + dec(p.ply as nat) + seq!['|']
        + dec(p.nodes as nat) + seq!['|'] + hex(p.pawn_hash as nat, 16)
}

/// Appends the text of a side to move.
fn push_stm(s: &mut String, c: Color)
    ensures
        final(s)@ == old(s)@ + stm_text(c),
{
    match c {
        Color::White => {
            s.append("w");
            proof {
                reveal_strlit("w");
            }
        },
        Color::Black => {
            s.append("b");
            proof {
                reveal_strlit("b");
            }
        },
    }
}

/// Appends a field separator.
fn push_bar(s: &mut String)
    ensures
        final(s)@ == old(s)@ + seq!['|'],
{
    s.append("|");
    proof {
        reveal_strlit("|");
    }
}

/// Appends the text of a result.
fn push_wdl(s: &mut String, r: GameResult)
    ensures
        final(s)@ == old(s)@ + wdl_text(r),
{
    match r {
        GameResult::WhiteWin => {
            s.append("1");
            proof {
                reveal_strlit("1");
            }
        },
        GameResult::Draw => {
            s.append("0.5");
            proof {
                reveal_strlit("0.5");
            }
        },
        GameResult::BlackWin => {
            s.append("0");
            proof {
                reveal_strlit("0");
            }
        },
    }
}

impl RawPosition {
    /// The record as one line of text (see `record_line`).
    pub fn to_line(&self) -> (r: String)
        ensures
            r@ == record_line(*self),
    {
        let mut s = self.fen.clone();
        push_bar(&mut s);
        push_signed(&mut s, self.score);
        push_bar(&mut s);
        push_wdl(&mut s, self.wdl);
        push_bar(&mut s);
        push_stm(&mut s, self.stm);
        push_bar(&mut s);
        push_decimal(&mut s, self.net_id as u64);
        push_bar(&mut s);
        push_decimal(&mut s, self.ply as u64);
        push_bar(&mut s);
        push_decimal(&mut s, self.nodes);
        push_bar(&mut s);
        push_hex(&mut s, self.pawn_hash, 16);
        s
    }
}

/// A thread number written with at least two digits.
pub open spec fn two_digits(n: nat) -> Seq<char> {
    if n < 10 { seq!['0'] + dec(n) } else { dec(n) }
}

/// The file a data generation thread writes to:
/// `<dir>/positions_thread_<nn>.txt`.
pub fn thread_output_path(output_dir: &str, thread_id: usize) -> (r: String)
    ensures
        r@ == output_dir@ + "/positions_thread_"@ + two_digits(thread_id as nat) + ".txt"@,
{
    let mut s = output_dir.to_owned();
    s.append("/positions_thread_");
    if thread_id < 10 {
        s.append("0");
        proof {
            reveal_strlit("0");
        }
    }
    push_decimal(&mut s, thread_id as u64);
    s.append(".txt");
    proof {
        if thread_id < 10 {
            assert(output_dir@ + "/positions_thread_"@ + seq!['0'] + dec(thread_id as nat)
                =~= output_dir@ + "/positions_thread_"@ + two_digits(thread_id as nat));
        }
    }
    s
}

// ---------------------------------------------------------------------------
// Game helpers
// ---------------------------------------------------------------------------

/// How many of the first `n` entries of `s` equal `x`.
pub open spec fn count_eq(s: Seq<u64>, x: u64, n: int) -> int
    decreases n,
{
    if n <= 0 {
        0
    } else {
        count_eq(s, x, n - 1) + if s[n - 1] == x { 1int } else { 0 }
    }
}

/// A game's repetition stack shows a threefold repetition: it holds at least eight
/// hashes and its last one at least three times.
pub open spec fn spec_threefold(stack: Seq<u64>) -> bool {
    stack.len() >= 8 && count_eq(stack, stack.last(), stack.len() as int) >= 3
}

/// Threefold repetition on a game's stack of position hashes.
pub fn is_threefold(stack: &Vec<u64>) -> (r: bool)
    ensures
        r == spec_threefold(stack@),
{
    let n = stack.len();
    if n < 8 {
        return false;
    }
    let last = stack[n - 1];
    let mut count: usize = 0;
    let mut i: usize = 0;
    while i < n
        invariant
            n == stack@.len(),
            last == stack@.last(),
            i <= n,
            count <= i,
            count == count_eq(stack@, last, i as int),
        decreases n - i,
    {
        if stack[i] == last {
            count += 1;
        }
        i += 1;
    }
    count >= 3
}

/// Key a pawn of a colour mixes into the pawn hash.
pub open spec fn pawn_key(c: Option<Color>) -> u64 {
    if c == Some(Color::White) { 0x9e3779b97f4a7c15 } else { 0x6c62272e07bb0142 }
}

/// What square `sq` adds to the pawn hash: its index times its pawn's colour key
/// (wrapping), or nothing without a pawn.
pub open spec fn pawn_term(s: BoardState, sq: int) -> u64 {
    if s.spec_role_at(sq as u8) == Some(crate::chess::Role::Pawn) {
        (sq as u64).wrapping_mul(pawn_key(s.spec_color_at(sq as u8)))
    } else {
        0
    }
}

/// Pawn hash over the first `n` squares.
pub open spec fn pawn_hash_upto(s: BoardState, n: int) -> u64
    decreases n,
{
    if n <= 0 {
        0
    } else {
        pawn_hash_upto(s, n - 1) ^ pawn_term(s, n - 1)
    }
}

/// A cheap hash of a position's pawns.
pub fn pawn_hash(pos: &Position) -> (r: u64)
    ensures
        r == pawn_hash_upto(pos@, 64),
{
    let board = pos.state();
    let mut hash: u64 = 0;
    let mut sq: u8 = 0;
    while sq < 64
        invariant
            sq <= 64,
            *board == pos@,
            hash == pawn_hash_upto(pos@, sq as int),
        decreases 64 - sq,
    {
        let term: u64 = if board.role_at(sq) == Some(crate::chess::Role::Pawn) {
            let key: u64 = if board.color_at(sq) == Some(Color::White) {
                0x9e3779b97f4a7c15
            } else {
                0x6c62272e07bb0142
            };
            (sq as u64).wrapping_mul(key)
        } else {
            0
        };
        hash = hash ^ term;
        sq += 1;
    }
    hash
}

// ---------------------------------------------------------------------------
// Opening book
// ---------------------------------------------------------------------------

/// Positions of an EPD opening book, as FEN texts.
pub struct EpdBook {
    pub fens: Vec<String>,
}

/// The FEN core of an EPD line: its first four fields joined by spaces.
pub open spec fn epd_fen(t: Seq<Seq<char>>) -> Seq<char> {
    t[0] + seq![' '] + t[1] + seq![' '] + t[2] + seq![' '] + t[3]
}

/// The FEN cores of the lines with at least four fields, in order.
pub open spec fn book_fens(lines: Seq<Seq<char>>) -> Seq<Seq<char>>
    decreases lines.len(),
{
    if lines.len() == 0 {
        Seq::empty()
    } else {
        let rest = book_fens(lines.drop_last());
        let t = tokens(lines.last());
        if t.len() >= 4 { rest.push(epd_fen(t)) } else { rest }
    }
}

/// The lines of a text.
pub open spec fn text_lines(content: Seq<char>) -> Seq<Seq<char>> {
    pieces(content, '\n', 0, usize::MAX as int)
}

/// Appends a space.
fn push_space(s: &mut String)
    ensures
        final(s)@ == old(s)@ + seq![' '],
{
    s.append(" ");
    proof {
        reveal_strlit(" ");
    }
}

impl EpdBook {
    /// The book a text holds: one position per line with at least four
    /// whitespace-separated fields, kept as those four fields.
    pub fn parse(content: &str) -> (r: EpdBook)
        ensures
            views(r.fens@) == book_fens(text_lines(content@)),
    {
        let lines = split_n(content, '\n', usize::MAX);
        let ghost lv = views(lines@);
        let mut fens: Vec<String> = Vec::new();
        let mut i: usize = 0;
        while i < lines.len()
            invariant
                i <= lines@.len(),
                lv == views(lines@),
                lv == text_lines(content@),
                views(fens@) == book_fens(lv.take(i as int)),
            decreases lines@.len() - i,
        {
            let toks = split_tokens(lines[i].as_str());
            proof {
                assert(lv.take(i + 1).drop_last() =~= lv.take(i as int));
                assert(lv.take(i + 1).last() == lines@[i as int]@);
            }
            if toks.len() >= 4 {
                let mut f = toks[0].clone();
                push_space(&mut f);
                f.append(toks[1].as_str());
                push_space(&mut f);
                f.append(toks[2].as_str());
                push_space(&mut f);
                f.append(toks[3].as_str());
                proof {
                    assert(views(toks@)[0] == toks@[0]@);
                    assert(views(toks@)[1] == toks@[1]@);
                    assert(views(toks@)[2] == toks@[2]@);
                    assert(views(toks@)[3] == toks@[3]@);
                    assert(views(fens@.push(f)) =~= views(fens@).push(f@));
                }
                fens.push(f);
            }
            i += 1;
        }
        proof {
            assert(lv.take(lines@.len() as int) =~= lv);
        }
        EpdBook { fens }
    }

    /// A position of the book picked at random, if the book has one and its FEN is a
    /// valid position.
    pub fn random_position(&self, rng: &mut ThreadRng) -> (r: Option<Position>)
        ensures
            self.fens@.len() == 0 ==> r is None,
            self.fens@.len() > 0 && (forall|k: int| 0 <= k < self.fens@.len() ==> (#[trigger] spec_from_fen(
                self.fens@[k]@)) is Some) ==> r is Some,
            r matches Some(p) ==> p@.wf() && exists|k: int|
                0 <= k < self.fens@.len() && spec_from_fen(#[trigger] self.fens@[k]@) == Some(p@),
    {
        if self.fens.len() == 0 {
            return None;
        }
        let k = random_below(rng, self.fens.len());
        let r = read_position_from_fen(self.fens[k].as_str());
        proof {
            if r is Some {
                assert(spec_from_fen(self.fens@[k as int]@) == Some(r->0@));
            }
        }
        r
    }
}

// ---------------------------------------------------------------------------
// Self-play
// ---------------------------------------------------------------------------

/// Scores at or beyond this magnitude are mate scores.
pub const MATE_THRESHOLD: i16 = 29_500;

/// Plies after which a game is stopped as a draw. The fifty-move rule, which the
/// game loop applies, ends every game well before.
pub const MAX_GAME_PLIES: usize = 12_000;

/// Whether a record was taken from position `s`: its FEN without the move
/// counters, its side to move and that side's network (0 for White, 1 for Black),
/// its pawn hash, and a side to move that is not in check.
pub open spec fn taken_from(p: RawPosition, s: BoardState) -> bool {
    &&& p.fen@ == fen_without_counters(spec_fen(s))
    &&& p.stm == s.turn
    &&& p.net_id == (if s.turn == Color::White { 0u8 } else { 1u8 })
    &&& p.pawn_hash == spec_pawnhash(s)
    &&& !spec_is_check(s)
}

/// Whether a record was taken from some position (see `taken_from`).
pub open spec fn from_some_position(p: RawPosition) -> bool {
    exists|s: BoardState| taken_from(p, s)
}

/// Largest magnitude of the first searched score for which a game goes on: a
/// larger one means the opening is unbalanced.
pub const OPENING_BALANCE: i32 = 150;

/// How a game ends right after a search, if it does: a search that found no move,
/// or a first search of the game scoring beyond `OPENING_BALANCE`, ends it as a
/// draw; otherwise it goes on.
pub fn search_verdict(first_move: bool, score: i32, found_move: bool) -> (r: Option<GameResult>)
    ensures
        r == (if !found_move || (first_move && (score > OPENING_BALANCE || score < -OPENING_BALANCE)) {
            Some(GameResult::Draw)
        } else {
            None
        }),
{
    if !found_move || (first_move && (score > OPENING_BALANCE || score < -OPENING_BALANCE)) {
        Some(GameResult::Draw)
    } else {
        None
    }
}

/// Score of a search from White's point of view.
pub open spec fn white_relative(score: int, turn: Color) -> int {
    if turn == Color::White { score } else { -score }
}

/// Whether the position searched is kept: a score that fits 16 bits (a larger one
/// counts as a mate score) and the position filter's `Keep`.
pub open spec fn kept_after_search(s: BoardState, best: ChessMove, score: int) -> bool {
    -32767 <= score <= 32767 && spec_filter_position(spec_is_check(s), best, score, MATE_THRESHOLD as int)
        == FilterResult::Keep
}

/// The record of a kept position searched with `score`: taken from it (see
/// `taken_from`), with its white-relative score, a draw as placeholder result, and
/// the ply and node count given.
pub open spec fn record_of(p: RawPosition, s: BoardState, score: int, ply: int, nodes: int) -> bool {
    &&& p.fen@ == fen_without_counters(spec_fen(s))
    &&& p.score == white_relative(score, s.turn)
    &&& p.wdl == GameResult::Draw
    &&& p.stm == s.turn
    &&& p.net_id == (if s.turn == Color::White { 0u8 } else { 1u8 })
    &&& p.ply == ply
    &&& p.nodes == nodes
    &&& p.pawn_hash == spec_pawnhash(s)
}

/// What a game does with the result of a search of `pos` (`score`, `best`): a search
/// that found no move, or a first search beyond `OPENING_BALANCE` (before anything is
/// kept, so the game gives no positions), ends the game as a draw. Otherwise the
/// white-relative score joins the history; an adjudication of the history ends the
/// game with its result; else the position is kept when the filter keeps it, and the
/// game goes on (`None`).
pub fn game_step(
    pos: &Position,
    first_move: bool,
    score: i32,
    best: Option<ChessMove>,
    ply: usize,
    nodes: u64,
    score_history: &mut Vec<i32>,
    collected: &mut Vec<RawPosition>,
    config: &DatagenConfig,
) -> (r: Option<GameResult>)
    requires
        pos@.wf(),
        first_move ==> old(collected)@.len() == 0,
        -result_bound(0) <= score <= result_bound(0),
        forall|j: int| 0 <= j < old(score_history)@.len() ==> -result_bound(0) <= #[trigger] old(score_history)@[j]
            <= result_bound(0),
    ensures
        forall|j: int| 0 <= j < final(score_history)@.len() ==> -result_bound(0) <= #[trigger] final(
            score_history)@[j] <= result_bound(0),
        (best is None || (first_move && (score > OPENING_BALANCE || score < -OPENING_BALANCE))) ==> {
            &&& r == Some(GameResult::Draw)
            &&& final(score_history)@ == old(score_history)@
            &&& final(collected)@ == old(collected)@
            &&& first_move ==> final(collected)@.len() == 0
        },
        !(best is None || (first_move && (score > OPENING_BALANCE || score < -OPENING_BALANCE))) ==> {
            let h = old(score_history)@.push(white_relative(score as int, pos@.turn) as i32);
            &&& final(score_history)@ == h
            &&& r == spec_adjudication(h, config.adjudication_plies as int, config.adjudication_score as int,
                config.draw_adjudication_score as int)
            &&& (r is Some || !kept_after_search(pos@, best->0, score as int)) ==> final(collected)@ == old(
                collected)@
            &&& (r is None && kept_after_search(pos@, best->0, score as int)) ==> {
                &&& final(collected)@.len() == old(collected)@.len() + 1
                &&& final(collected)@.drop_last() == old(collected)@
                &&& record_of(final(collected)@.last(), pos@, score as int, ply as int, nodes as int)
            }
        },
{
    match search_verdict(first_move, score, best.is_some()) {
        Some(end) => {
            return Some(end);
        },
        None => {},
    }
    let best_move = match best {
        Some(m) => m,
        None => {
            return Some(GameResult::Draw);
        },
    };
    let white = pos.state().turn == Color::White;
    let wr: i32 = if white { score } else { -score };
    score_history.push(wr);
    proof {
        let w = recent(score_history@, config.adjudication_plies as int);
        if score_history@.len() >= config.adjudication_plies {
            assert forall|j: int| 0 <= j < w.len() implies #[trigger] w[j] > i32::MIN by {
                assert(w[j] == score_history@[score_history@.len() - config.adjudication_plies + j]);
            }
        }
    }
    match check_adjudication(score_history, config) {
        Some(adj) => {
            return Some(adj);
        },
        None => {},
    }
    let verdict = if -32767 <= score && score <= 32767 {
        filter_position(pos, &best_move, score as i16, MATE_THRESHOLD)
    } else {
        FilterResult::IsMateScore
    };
    if verdict == FilterResult::Keep {
        let full_fen = pos.fen();
        let fen = prefix_before_nth(full_fen.as_str(), ' ', 4);
        let record = RawPosition {
            fen,
            score: wr,
            wdl: GameResult::Draw,
            stm: pos.state().turn,
            net_id: if white { 0 } else { 1 },
            ply,
            nodes,
            pawn_hash: crate::hash::Hash::pawnhash(pos).0,
        };
        let ghost before = collected@;
        collected.push(record);
        proof {
            assert(collected@.drop_last() =~= before);
        }
    }
    None
}

/// Ignores the reports of a search.
pub struct QuietObserver;

impl SearchObserver for QuietObserver {
    fn on_depth(&mut self, ctx: &SearchContext, pos: &Position, depth: usize, score: i32, elapsed_ms: u64, pv: &PvTable,
        tt_pv: &Vec<Option<ChessMove>>) {
    }
}

/// Plays one self-play game and returns the positions kept from it, in the order
/// played (by increasing ply), each carrying the game's result. The game starts from a random book position (or the initial
/// position), then plays fewer than `random_opening_plies` random moves (none when
/// that is zero). From then on the side to move searches with its own network and
/// table (White `net_0` and `tt_0`, network 0; Black `net_1` and `tt_1`, network 1)
/// for `nodes_per_move` nodes. The game ends at mate or stalemate, insufficient
/// material, the fifty-move rule, a threefold repetition, an adjudication, a first
/// searched score beyond 150 cp (an unbalanced opening, a draw, before any position
/// is kept), or a search that finds no move (a draw); each search's result goes
/// through `game_step`. A random
/// opening that reaches a position without moves gives no positions.
pub fn run_game(
    config: &DatagenConfig,
    book: Option<&EpdBook>,
    net_0: &Network,
    net_1: &Network,
    params: &Params,
    ordering: &MoveOrdering,
    tt_0: &mut TranspositionTable,
    tt_1: &mut TranspositionTable,
    lmr_table: &Vec<u8>,
    rng: &mut ThreadRng,
) -> (r: Vec<RawPosition>)
    requires
        old(tt_0).wf(),
        old(tt_1).wf(),
        net_0.wf(),
        net_1.wf(),
        params_ok(*params),
        ordering.wf(),
        lmr_table@.len() == 64 * 64,
    ensures
        final(tt_0).wf(),
        final(tt_1).wf(),
        forall|j: int, k: int| 0 <= j < r@.len() && 0 <= k < r@.len() ==> r@[j].wdl == r@[k].wdl,
        forall|k: int| 0 <= k < r@.len() ==> #[trigger] r@[k].net_id <= 1
            && -(MATE_THRESHOLD as int) < r@[k].score < MATE_THRESHOLD,
        forall|k: int| 0 <= k < r@.len() ==> from_some_position(#[trigger] r@[k]),
        forall|j: int, k: int| 0 <= j < k < r@.len() ==> r@[j].ply < r@[k].ply,
{
    let mut pos = match book {
        Some(b) => match b.random_position(rng) {
            Some(p) => p,
            None => Position::new(),
        },
        None => Position::new(),
    };
    let mut repetition_stack: Vec<u64> = Vec::new();
    let mut collected: Vec<RawPosition> = Vec::new();
    let random_plies: usize = if config.random_opening_plies > 0 {
        random_below(rng, config.random_opening_plies)
    } else {
        0
    };
    let mut score_history: Vec<i32> = Vec::new();
    let mut k: usize = 0;
    while k < random_plies
        invariant
            pos@.wf(),
            tt_0.wf(),
            tt_1.wf(),
            k <= random_plies,
        decreases random_plies - k,
    {
        let moves = pos.legal_moves();
        if moves.len() == 0 {
            return Vec::new();
        }
        let idx = random_below(rng, moves.len());
        let mv = moves[idx];
        proof {
            assert(spec_legal_moves(pos@)[idx as int] == mv);
        }
        repetition_stack.push(pos.zobrist());
        pos = pos.play(mv);
        k += 1;
    }
    if pos.legal_moves().len() == 0 {
        return Vec::new();
    }
    let mut first_move = true;
    let mut result = GameResult::Draw;
    let mut ply: usize = 0;
    loop
        invariant
            pos@.wf(),
            tt_0.wf(),
            tt_1.wf(),
            net_0.wf(),
            net_1.wf(),
            params_ok(*params),
            ordering.wf(),
            lmr_table@.len() == 64 * 64,
            ply <= MAX_GAME_PLIES,
            forall|j: int| 0 <= j < score_history@.len() ==> -result_bound(0) <= #[trigger] score_history@[j]
                <= result_bound(0),
            first_move ==> collected@.len() == 0,
            forall|j: int| 0 <= j < collected@.len() ==> #[trigger] collected@[j].net_id <= 1
                && -(MATE_THRESHOLD as int) < collected@[j].score < MATE_THRESHOLD,
            forall|j: int| 0 <= j < collected@.len() ==> from_some_position(#[trigger] collected@[j]),
            forall|j: int, k: int| 0 <= j < k < collected@.len() ==> collected@[j].ply < collected@[k].ply,
            forall|j: int| 0 <= j < collected@.len() ==> collected@[j].ply < repetition_stack@.len(),
        decreases MAX_GAME_PLIES - ply,
    {
        let legal_moves = pos.legal_moves();
        if legal_moves.len() == 0 {
            result = terminal_wdl(&pos);
            break;
        }
        if pos.is_insufficient_material() || pos.state().halfmoves >= 100 || is_threefold(&repetition_stack)
            || ply >= MAX_GAME_PLIES {
            break;
        }
        let white = pos.state().turn == Color::White;
        let network: &Network = if white { net_0 } else { net_1 };
        let net_id: u8 = if white { 0 } else { 1 };
        let mut tt = TranspositionTable::new(0);
        if white {
            std::mem::swap(&mut tt, tt_0);
        } else {
            std::mem::swap(&mut tt, tt_1);
        }
        let mut ctx = build_search_context(
            tt,
            *params,
            ordering.clone(),
            network,
            repetition_stack.clone(),
            NNUEState::new(pos.state(), network),
            Arc::new(AtomicBool::new(false)),
            Arc::new(AtomicU64::new(0)),
            false,
            None,
            lmr_table.clone(),
        );
        ctx.node_limit = config.nodes_per_move;
        let mut quiet = QuietObserver;
        let (score, best, _pv) = search(&pos, &mut ctx, 128, 3_600_000, &mut quiet);
        if white {
            std::mem::swap(&mut ctx.tt, tt_0);
        } else {
            std::mem::swap(&mut ctx.tt, tt_1);
        }
        let nodes = read_counter(&*ctx.node_count);
        let ghost kept_before = collected@;
        match game_step(&pos, first_move, score, best, repetition_stack.len(), nodes, &mut score_history,
            &mut collected, config) {
            Some(end) => {
                result = end;
                break;
            },
            None => {},
        }
        let best_move = match best {
            Some(m) => m,
            None => {
                break;
            },
        };
        proof {
            if collected@.len() != kept_before.len() {
                let rec = collected@.last();
                assert(taken_from(rec, pos@));
                assert(from_some_position(rec));
                assert forall|j: int| 0 <= j < collected@.len() implies from_some_position(#[trigger] collected@[j])
                    && collected@[j].net_id <= 1 && -(MATE_THRESHOLD as int) < collected@[j].score < MATE_THRESHOLD
                    && collected@[j].ply < repetition_stack@.len() + 1 by {
                    if j < kept_before.len() {
                        assert(collected@[j] == kept_before[j]);
                    }
                }
            }
        }
        first_move = false;
        repetition_stack.push(pos.zobrist());
        pos = pos.play(best_move);
        ply += 1;
    }
    let mut out: Vec<RawPosition> = Vec::new();
    let mut i: usize = 0;
    while i < collected.len()
        invariant
            i <= collected@.len(),
            out@.len() == i,
            forall|j: int| 0 <= j < i ==> #[trigger] out@[j].wdl == result,
            forall|j: int| 0 <= j < collected@.len() ==> #[trigger] collected@[j].net_id <= 1
                && -(MATE_THRESHOLD as int) < collected@[j].score < MATE_THRESHOLD,
            forall|j: int| 0 <= j < i ==> #[trigger] out@[j].net_id <= 1
                && -(MATE_THRESHOLD as int) < out@[j].score < MATE_THRESHOLD,
            forall|j: int| 0 <= j < collected@.len() ==> from_some_position(#[trigger] collected@[j]),
            forall|j: int| 0 <= j < i ==> from_some_position(#[trigger] out@[j]),
            forall|j: int, k: int| 0 <= j < k < collected@.len() ==> collected@[j].ply < collected@[k].ply,
            forall|j: int| 0 <= j < i ==> out@[j].ply == collected@[j].ply,
        decreases collected@.len() - i,
    {
        let p = &collected[i];
        let ghost st = choose|st: BoardState| taken_from(collected@[i as int], st);
        proof {
            assert(from_some_position(collected@[i as int]));
        }
        out.push(
            RawPosition {
                fen: p.fen.clone(),
                score: p.score,
                wdl: result,
                stm: p.stm,
                net_id: p.net_id,
                ply: p.ply,
                nodes: p.nodes,
                pawn_hash: p.pawn_hash,
            },
        );
        proof {
            assert(taken_from(out@[i as int], st));
        }
        i += 1;
    }
    out
}

/// Quiescence margin of the quietness test.
pub const QUIET_MARGIN_Q: i32 = 60;
/// Shallow-search margin of the quietness test.
pub const QUIET_MARGIN_NM: i32 = 70;
/// Depth of the quietness test's shallow search.
pub const QUIET_NEGAMAX_DEPTH: usize = 4;

/// Whether a position is quiet: not in check, and both a quiescence search and a
/// shallow search with a null window at zero stay within their margins of zero.
/// The searches leave the context restored.
pub fn is_quiet_position(pos: &Position, params: &Params, ctx: &mut SearchContext) -> (r: bool)
    requires
        old(ctx).wf(),
        pos@.wf(),
    ensures
        final(ctx).wf(),
        restored(final(ctx), old(ctx)),
        r ==> !spec_is_check(pos@),
{
    if pos.is_check() {
        return false;
    }
    let static_eval: i32 = 0;
    let q_eval = quiescence(pos, ctx, 0, 0, 0);
    let dq: i32 = static_eval - q_eval;
    if dq > QUIET_MARGIN_Q || dq < -QUIET_MARGIN_Q {
        return false;
    }
    let mut pv = PvTable::new();
    let nm_eval = negamax(pos, ctx, QUIET_NEGAMAX_DEPTH, 0, 0, 0, true, &mut pv);
    let dn: i32 = static_eval - nm_eval;
    if dn > QUIET_MARGIN_NM || dn < -QUIET_MARGIN_NM {
        return false;
    }
    true
}

} // verus!
