//! Filtering and balancing of generated training data: reading a position record,
//! the hard per-position filters, the balance statistics, pawn-structure
//! deduplication, and a seeded shuffle.

use vstd::prelude::*;
use vstd::hash_map::HashMapWithView;
use crate::chess::Color;
use crate::datagen::{magnitude, record_line, wdl_text, stm_text};
use crate::random::{small_rng, random_at_most};
use crate::text::{is_real_text, real_text, digit_run, number_from, is_digit, eq_text, parse_hex, parse_hex_u64, parse_i32, parse_int, parse_u64, parse_unsigned, pieces,
    split_n, split_tokens, tokens, trim, trimmed, views, join_with, dec, hex, signed_dec, lemma_pieces_join,
    lemma_signed_parse, lemma_dec_parse, lemma_dec_value, lemma_hex_parse};

verus! {

broadcast use vstd::std_specs::hash::group_hash_axioms;

// ---------------------------------------------------------------------------
// Settings
// ---------------------------------------------------------------------------

/// Settings of the filter tool.
#[derive(Clone, Copy, PartialEq, Eq, Debug, Structural)]
pub struct FilterConfig {
    /// Positions whose score magnitude exceeds this are dropped.
    pub max_score: i32,
    /// When positive, positions whose score magnitude is below this are dropped.
    pub min_score: i32,
    /// When set, only positions searched by this network are kept.
    pub net_id: Option<u8>,
    /// Score magnitude up to which a position counts as balanced.
    pub imbalance_threshold: i32,
    /// Most positions kept per pawn structure (0: no limit).
    pub max_per_pawn_hash: usize,
    /// Positions to write (0: all).
    pub target_positions: usize,
    /// Whether the output is shuffled.
    pub shuffle: bool,
    /// Seed of the shuffle, if any.
    pub shuffle_seed: Option<u64>,
}

impl FilterConfig {
    /// The defaults of the command line: maximum score 3000, no minimum, all
    /// networks, balance threshold 100, at most 4 positions per pawn structure, all
    /// positions, shuffled without a fixed seed.
    pub fn default() -> (r: FilterConfig)
        ensures
            r == (FilterConfig { max_score: 3000, min_score: 0, net_id: None, imbalance_threshold: 100,
                max_per_pawn_hash: 4, target_positions: 0, shuffle: true, shuffle_seed: None }),
    {
        FilterConfig {
            max_score: 3000,
            min_score: 0,
            net_id: None,
            imbalance_threshold: 100,
            max_per_pawn_hash: 4,
            target_positions: 0,
            shuffle: true,
            shuffle_seed: None,
        }
    }
}

// ---------------------------------------------------------------------------
// Records
// ---------------------------------------------------------------------------

/// A position record as the data generator writes it. The game result is kept as
/// its text.
pub struct RawPosition {
    pub fen: String,
    pub score: i32,
    pub wdl: String,
    pub stm: Color,
    pub net_id: u8,
    pub ply: usize,
    pub nodes: u64,
    pub pawn_hash: u64,
}

/// The plain contents of a record.
pub struct RecordView {
    pub fen: Seq<char>,
    pub score: i32,
    pub wdl: Seq<char>,
    pub stm: Color,
    pub net_id: u8,
    pub ply: usize,
    pub nodes: u64,
    pub pawn_hash: u64,
}

impl View for RawPosition {
    type V = RecordView;

    open spec fn view(&self) -> RecordView {
        RecordView {
            fen: self.fen@,
            score: self.score,
            wdl: self.wdl@,
            stm: self.stm,
            net_id: self.net_id,
            ply: self.ply,
            nodes: self.nodes,
            pawn_hash: self.pawn_hash,
        }
    }
}

impl Clone for RawPosition {
    fn clone(&self) -> (r: Self)
        ensures
            r@ == self@,
    {
        RawPosition {
            fen: self.fen.clone(),
            score: self.score,
            wdl: self.wdl.clone(),
            stm: self.stm,
            net_id: self.net_id,
            ply: self.ply,
            nodes: self.nodes,
            pawn_hash: self.pawn_hash,
        }
    }
}

/// Side to move named by its text, `w` or `b`.
pub open spec fn stm_of_text(t: Seq<char>) -> Option<Color> {
    if t == seq!['w'] {
        Some(Color::White)
    } else if t == seq!['b'] {
        Some(Color::Black)
    } else {
        None
    }
}

/// The record a line holds: eight `|`-separated fields
/// `fen|score|wdl|stm|net_id|ply|nodes|pawn_hash` (the last takes the rest of the
/// line), with a signed score, a result that reads as a real number, a side to move
/// `w` or `b`, an 8-bit network id,
/// unsigned ply and node counts, and a hexadecimal pawn hash that may be
/// surrounded by whitespace.
pub open spec fn spec_from_line(line: Seq<char>) -> Option<RecordView> {
    let p = pieces(line, '|', 0, 8);
    if p.len() != 8 || !is_real_text(p[2]) {
        None
    } else {
        match (
            parse_int(p[1], true, i32::MIN as int, i32::MAX as int),
            stm_of_text(p[3]),
            parse_int(p[4], false, 0, u8::MAX as int),
            parse_int(p[5], false, 0, usize::MAX as int),
            parse_int(p[6], false, 0, u64::MAX as int),
            parse_hex(trimmed(p[7])),
        ) {
            (Some(score), Some(stm), Some(net_id), Some(ply), Some(nodes), Some(hash)) => Some(
                RecordView {
                    fen: p[0],
                    score: score as i32,
                    wdl: p[2],
                    stm,
                    net_id: net_id as u8,
                    ply: ply as usize,
                    nodes: nodes as u64,
                    pawn_hash: hash as u64,
                },
            ),
            _ => None,
        }
    }
}

fn read_stm(t: &str) -> (r: Option<Color>)
    ensures
        r == stm_of_text(t@),
{
    proof {
        reveal_strlit("w");
        reveal_strlit("b");
        assert("w"@ =~= seq!['w']);
        assert("b"@ =~= seq!['b']);
    }
    if eq_text(t, "w") {
        Some(Color::White)
    } else if eq_text(t, "b") {
        Some(Color::Black)
    } else {
        None
    }
}

/// Whether a FEN's side-to-move field is `w`; true when it has no such field.
pub open spec fn white_to_move(fen: Seq<char>) -> bool {
    let t = tokens(fen);
    t.len() < 2 || t[1] == "w"@
}

/// Score of a record from the side to move's point of view.
pub open spec fn spec_stm_score(p: RecordView) -> int {
    if white_to_move(p.fen) { p.score as int } else { -(p.score as int) }
}

impl RawPosition {
    /// Reads a record from a line (see `spec_from_line`); the result field stays
    /// text.
    pub fn from_line(line: &str) -> (r: Option<RawPosition>)
        ensures
            r is Some <==> spec_from_line(line@) is Some,
            r matches Some(p) ==> p@ == spec_from_line(line@)->0,
    {
        let parts = split_n(line, '|', 8);
        if parts.len() != 8 {
            return None;
        }
        proof {
            assert(views(parts@)[0] == parts@[0]@);
            assert(views(parts@)[1] == parts@[1]@);
            assert(views(parts@)[2] == parts@[2]@);
            assert(views(parts@)[3] == parts@[3]@);
            assert(views(parts@)[4] == parts@[4]@);
            assert(views(parts@)[5] == parts@[5]@);
            assert(views(parts@)[6] == parts@[6]@);
            assert(views(parts@)[7] == parts@[7]@);
        }
        if !real_text(parts[2].as_str()) {
            return None;
        }
        let score = match parse_i32(parts[1].as_str()) {
            Some(v) => v,
            None => {
                return None;
            },
        };
        let stm = match read_stm(parts[3].as_str()) {
            Some(c) => c,
            None => {
                return None;
            },
        };
        let net_id = match parse_unsigned(parts[4].as_str(), 255) {
            Some(v) => v as u8,
            None => {
                return None;
            },
        };
        let ply = match parse_unsigned(parts[5].as_str(), usize::MAX as u64) {
            Some(v) => v as usize,
            None => {
                return None;
            },
        };
        let nodes = match parse_u64(parts[6].as_str()) {
            Some(v) => v,
            None => {
                return None;
            },
        };
        let hash_text = trim(parts[7].as_str());
        let pawn_hash = match parse_hex_u64(hash_text.as_str()) {
            Some(v) => v,
            None => {
                return None;
            },
        };
        Some(
            RawPosition {
                fen: parts[0].clone(),
                score,
                wdl: parts[2].clone(),
                stm,
                net_id,
                ply,
                nodes,
                pawn_hash,
            },
        )
    }

    /// Whether White is to move, read from the FEN's second field (true when it
    /// has none).
    pub fn is_white_to_move(&self) -> (r: bool)
        ensures
            r == white_to_move(self.fen@),
    {
        let toks = split_tokens(self.fen.as_str());
        if toks.len() < 2 {
            return true;
        }
        proof {
            assert(views(toks@)[1] == toks@[1]@);
        }
        eq_text(toks[1].as_str(), "w")
    }

    /// The score from the side to move's point of view.
    pub fn stm_score(&self) -> (r: i32)
        requires
            self.score != i32::MIN,
        ensures
            r == spec_stm_score(self@),
    {
        if self.is_white_to_move() { self.score } else { -self.score }
    }
}

// ---------------------------------------------------------------------------
// Hard filters
// ---------------------------------------------------------------------------

/// Why a record is dropped, or `Keep`.
#[derive(Debug, PartialEq, Eq, Structural, Clone, Copy)]
pub enum FilterResult {
    Keep,
    ScoreTooHigh,
    ScoreTooLow,
    WrongNetId,
}

/// The score magnitude as the filter computes it: the unsigned magnitude read back
/// as an `i32`, so `i32::MIN` stays `i32::MIN`.
pub open spec fn filter_magnitude(score: i32) -> int {
    if score == i32::MIN { i32::MIN as int } else { magnitude(score as int) }
}

/// The hard filters in order: a score magnitude above the maximum, then (with a
/// positive minimum) below the minimum, then another network than the one asked for.
pub open spec fn spec_apply_filters(p: RecordView, c: FilterConfig) -> FilterResult {
    let a = filter_magnitude(p.score);
    if a > c.max_score {
        FilterResult::ScoreTooHigh
    } else if c.min_score > 0 && a < c.min_score {
        FilterResult::ScoreTooLow
    } else if c.net_id is Some && p.net_id != c.net_id->0 {
        FilterResult::WrongNetId
    } else {
        FilterResult::Keep
    }
}

/// Applies the hard filters to a record (see `spec_apply_filters`).
pub fn apply_filters(pos: &RawPosition, config: &FilterConfig) -> (r: FilterResult)
    ensures
        r == spec_apply_filters(pos@, *config),
{
    let abs_score: i32 = if pos.score == i32::MIN {
        i32::MIN
    } else if pos.score < 0 {
        -pos.score
    } else {
        pos.score
    };
    if abs_score > config.max_score {
        return FilterResult::ScoreTooHigh;
    }
    if config.min_score > 0 && abs_score < config.min_score {
        return FilterResult::ScoreTooLow;
    }
    if let Some(net_id) = config.net_id {
        if pos.net_id != net_id {
            return FilterResult::WrongNetId;
        }
    }
    FilterResult::Keep
}

/// Whether a record's score lies within the balance threshold.
pub fn is_balanced(pos: &RawPosition, config: &FilterConfig) -> (r: bool)
    requires
        pos.score != i32::MIN,
    ensures
        r == (magnitude(pos.score as int) <= config.imbalance_threshold),
{
    let a: i32 = if pos.score < 0 { -pos.score } else { pos.score };
    a <= config.imbalance_threshold
}

/// Whether a record's score lies beyond the balance threshold.
pub fn is_imbalanced(pos: &RawPosition, config: &FilterConfig) -> (r: bool)
    requires
        pos.score != i32::MIN,
    ensures
        r == (magnitude(pos.score as int) > config.imbalance_threshold),
{
    let a: i32 = if pos.score < 0 { -pos.score } else { pos.score };
    a > config.imbalance_threshold
}

// ---------------------------------------------------------------------------
// Balancing
// ---------------------------------------------------------------------------

/// Counters of a filtering pass.
#[derive(Clone, Copy, PartialEq, Eq, Debug, Structural)]
pub struct BalanceStats {
    pub total_read: u64,
    pub dropped_hard_filter: u64,
    pub dropped_pawn_hash: u64,
    pub kept: u64,
    pub balanced: u64,
    pub imbalanced: u64,
    pub positive_stm: u64,
}

impl BalanceStats {
    /// All counters at zero.
    pub fn default() -> (r: BalanceStats)
        ensures
            r == (BalanceStats { total_read: 0, dropped_hard_filter: 0, dropped_pawn_hash: 0, kept: 0, balanced: 0,
                imbalanced: 0, positive_stm: 0 }),
    {
        BalanceStats {
            total_read: 0,
            dropped_hard_filter: 0,
            dropped_pawn_hash: 0,
            kept: 0,
            balanced: 0,
            imbalanced: 0,
            positive_stm: 0,
        }
    }
}

/// The contents of a list of records.
pub open spec fn record_views(v: Seq<RawPosition>) -> Seq<RecordView> {
    v.map_values(|p: RawPosition| p@)
}

/// Whether a record passes the hard filters.
pub open spec fn passes(p: RecordView, c: FilterConfig) -> bool {
    spec_apply_filters(p, c) == FilterResult::Keep
}

/// How many kept records so far have pawn hash `h`.
pub open spec fn count_of(m: Map<u64, usize>, h: u64) -> int {
    if m.contains_key(h) { m[h] as int } else { 0 }
}

/// Whether deduplication drops a record given the counts so far.
pub open spec fn dedup_drops(m: Map<u64, usize>, p: RecordView, c: FilterConfig) -> bool {
    c.max_per_pawn_hash > 0 && count_of(m, p.pawn_hash) >= c.max_per_pawn_hash
}

/// Kept records per pawn hash after the first `n` records (counted only when there
/// is a limit).
pub open spec fn counts_after(ps: Seq<RecordView>, c: FilterConfig, n: int) -> Map<u64, usize>
    decreases n,
{
    if n <= 0 {
        Map::empty()
    } else {
        let m = counts_after(ps, c, n - 1);
        let p = ps[n - 1];
        if passes(p, c) && c.max_per_pawn_hash > 0 && count_of(m, p.pawn_hash) < c.max_per_pawn_hash {
            m.insert(p.pawn_hash, (count_of(m, p.pawn_hash) + 1) as usize)
        } else {
            m
        }
    }
}

/// Whether record `i` is kept: it passes the hard filters and its pawn structure
/// has not reached the limit yet.
pub open spec fn kept_at(ps: Seq<RecordView>, c: FilterConfig, i: int) -> bool {
    passes(ps[i], c) && !dedup_drops(counts_after(ps, c, i), ps[i], c)
}

/// The records kept among the first `n`, in order.
pub open spec fn kept_seq(ps: Seq<RecordView>, c: FilterConfig, n: int) -> Seq<RecordView>
    decreases n,
{
    if n <= 0 {
        Seq::empty()
    } else {
        let r = kept_seq(ps, c, n - 1);
        if kept_at(ps, c, n - 1) { r.push(ps[n - 1]) } else { r }
    }
}

/// How many of `0 .. n` satisfy `f`.
pub open spec fn count_where(n: int, f: spec_fn(int) -> bool) -> int
    decreases n,
{
    if n <= 0 {
        0
    } else {
        count_where(n - 1, f) + if f(n - 1) { 1int } else { 0 }
    }
}

/// Records dropped by the hard filters.
pub open spec fn hard_dropped(ps: Seq<RecordView>, c: FilterConfig) -> spec_fn(int) -> bool {
    |i: int| !passes(ps[i], c)
}

/// Records dropped by pawn-structure deduplication.
pub open spec fn dedup_dropped(ps: Seq<RecordView>, c: FilterConfig) -> spec_fn(int) -> bool {
    |i: int| passes(ps[i], c) && dedup_drops(counts_after(ps, c, i), ps[i], c)
}

/// Kept records.
pub open spec fn kept_pred(ps: Seq<RecordView>, c: FilterConfig) -> spec_fn(int) -> bool {
    |i: int| kept_at(ps, c, i)
}

/// Kept records within the balance threshold.
pub open spec fn balanced_pred(ps: Seq<RecordView>, c: FilterConfig) -> spec_fn(int) -> bool {
    |i: int| kept_at(ps, c, i) && magnitude(ps[i].score as int) <= c.imbalance_threshold
}

/// Kept records beyond the balance threshold.
pub open spec fn imbalanced_pred(ps: Seq<RecordView>, c: FilterConfig) -> spec_fn(int) -> bool {
    |i: int| kept_at(ps, c, i) && magnitude(ps[i].score as int) > c.imbalance_threshold
}

/// Kept records good for the side to move.
pub open spec fn positive_pred(ps: Seq<RecordView>, c: FilterConfig) -> spec_fn(int) -> bool {
    |i: int| kept_at(ps, c, i) && spec_stm_score(ps[i]) > 0
}

proof fn lemma_count_where_bound(n: int, f: spec_fn(int) -> bool)
    requires
        n >= 0,
    ensures
        0 <= count_where(n, f) <= n,
    decreases n,
{
    if n > 0 {
        lemma_count_where_bound(n - 1, f);
    }
}

/// Applies the hard filters and pawn-structure deduplication to the records in
/// order, and counts what was read, dropped and kept, and how many kept records are
/// balanced, imbalanced, and good for the side to move.
pub fn collect_and_filter(positions: Vec<RawPosition>, config: &FilterConfig) -> (r: (Vec<RawPosition>, BalanceStats))
    requires
        forall|i: int| 0 <= i < positions@.len() && kept_at(record_views(positions@), *config, i)
            ==> #[trigger] positions@[i].score != i32::MIN,
    ensures
        ({
            let ps = record_views(positions@);
            let n = positions@.len() as int;
            &&& record_views(r.0@) == kept_seq(ps, *config, n)
            &&& r.1.total_read == n
            &&& r.1.dropped_hard_filter == count_where(n, hard_dropped(ps, *config))
            &&& r.1.dropped_pawn_hash == count_where(n, dedup_dropped(ps, *config))
            &&& r.1.kept == count_where(n, kept_pred(ps, *config))
            &&& r.1.balanced == count_where(n, balanced_pred(ps, *config))
            &&& r.1.imbalanced == count_where(n, imbalanced_pred(ps, *config))
            &&& r.1.positive_stm == count_where(n, positive_pred(ps, *config))
        }),
{
    let ghost ps = record_views(positions@);
    let ghost c = *config;
    let mut stats = BalanceStats::default();
    let mut pawn_counts: HashMapWithView<u64, usize> = HashMapWithView::new();
    let mut kept: Vec<RawPosition> = Vec::new();
    let n = positions.len();
    let mut i: usize = 0;
    while i < n
        invariant
            n == positions@.len(),
            ps == record_views(positions@),
            c == *config,
            i <= n,
            forall|k: int| 0 <= k < positions@.len() && kept_at(ps, c, k) ==> #[trigger] positions@[k].score != i32::MIN,
            pawn_counts@ == counts_after(ps, c, i as int),
            record_views(kept@) == kept_seq(ps, c, i as int),
            stats.total_read == i,
            stats.dropped_hard_filter == count_where(i as int, hard_dropped(ps, c)),
            stats.dropped_pawn_hash == count_where(i as int, dedup_dropped(ps, c)),
            stats.kept == count_where(i as int, kept_pred(ps, c)),
            stats.balanced == count_where(i as int, balanced_pred(ps, c)),
            stats.imbalanced == count_where(i as int, imbalanced_pred(ps, c)),
            stats.positive_stm == count_where(i as int, positive_pred(ps, c)),
        decreases n - i,
    {
        proof {
            lemma_count_where_bound(i as int, hard_dropped(ps, c));
            lemma_count_where_bound(i as int, dedup_dropped(ps, c));
            lemma_count_where_bound(i as int, kept_pred(ps, c));
            lemma_count_where_bound(i as int, balanced_pred(ps, c));
            lemma_count_where_bound(i as int, imbalanced_pred(ps, c));
            lemma_count_where_bound(i as int, positive_pred(ps, c));
            assert(ps[i as int] == positions@[i as int]@);
        }
        let pos = &positions[i];
        stats.total_read = stats.total_read + 1;
        if apply_filters(pos, config) != FilterResult::Keep {
            stats.dropped_hard_filter = stats.dropped_hard_filter + 1;
        } else {
            let mut dropped = false;
            if config.max_per_pawn_hash > 0 {
                let count: usize = match pawn_counts.get(&pos.pawn_hash) {
                    Some(v) => *v,
                    None => 0,
                };
                if count >= config.max_per_pawn_hash {
                    dropped = true;
                } else {
                    pawn_counts.insert(pos.pawn_hash, count + 1);
                }
            }
            if dropped {
                stats.dropped_pawn_hash = stats.dropped_pawn_hash + 1;
            } else {
                if is_balanced(pos, config) {
                    stats.balanced = stats.balanced + 1;
                }
                if is_imbalanced(pos, config) {
                    stats.imbalanced = stats.imbalanced + 1;
                }
                if pos.stm_score() > 0 {
                    stats.positive_stm = stats.positive_stm + 1;
                }
                stats.kept = stats.kept + 1;
                let copy = pos.clone();
                proof {
                    assert(record_views(kept@.push(copy)) =~= record_views(kept@).push(copy@));
                }
                kept.push(copy);
            }
        }
        i += 1;
    }
    (kept, stats)
}

/// How many records of `s` have pawn hash `h`.
pub open spec fn count_hash(s: Seq<RecordView>, h: u64) -> int
    decreases s.len(),
{
    if s.len() == 0 {
        0
    } else {
        count_hash(s.drop_last(), h) + if s.last().pawn_hash == h { 1int } else { 0 }
    }
}

proof fn lemma_kept_counts(ps: Seq<RecordView>, c: FilterConfig, h: u64, n: int)
    requires
        c.max_per_pawn_hash > 0,
        0 <= n <= ps.len(),
    ensures
        count_hash(kept_seq(ps, c, n), h) == count_of(counts_after(ps, c, n), h),
        count_of(counts_after(ps, c, n), h) <= c.max_per_pawn_hash,
    decreases n,
{
    if n > 0 {
        lemma_kept_counts(ps, c, h, n - 1);
        let r = kept_seq(ps, c, n - 1);
        if kept_at(ps, c, n - 1) {
            assert(r.push(ps[n - 1]).drop_last() =~= r);
        }
    }
}

/// Pawn-structure deduplication: with a positive limit, no pawn hash occurs among
/// the kept records more often than the limit.
pub proof fn lemma_pawn_hash_limit(ps: Seq<RecordView>, c: FilterConfig, h: u64)
    requires
        c.max_per_pawn_hash > 0,
    ensures
        count_hash(kept_seq(ps, c, ps.len() as int), h) <= c.max_per_pawn_hash,
{
    lemma_kept_counts(ps, c, h, ps.len() as int);
}

/// Joining one more field appends a separator and that field.
proof fn lemma_join_push(fs: Seq<Seq<char>>, x: Seq<char>, sep: char)
    requires
        fs.len() >= 1,
    ensures
        join_with(fs.push(x), sep) == join_with(fs, sep) + seq![sep] + x,
    decreases fs.len(),
{
    let g = fs.push(x);
    assert(g.len() >= 2 && g[0] == fs[0]);
    if fs.len() == 1 {
        assert(g.drop_first() =~= seq![x]);
        assert(join_with(seq![x], sep) == x);
        assert(join_with(g, sep) == fs[0] + seq![sep] + x);
    } else {
        assert(g.drop_first() =~= fs.drop_first().push(x));
        lemma_join_push(fs.drop_first(), x, sep);
        assert(join_with(fs, sep) == fs[0] + seq![sep] + join_with(fs.drop_first(), sep));
        assert(join_with(g, sep) == fs[0] + seq![sep] + join_with(fs.drop_first().push(x), sep));
        assert(fs[0] + seq![sep] + (join_with(fs.drop_first(), sep) + seq![sep] + x)
            =~= fs[0] + seq![sep] + join_with(fs.drop_first(), sep) + seq![sep] + x);
    }
}

/// The text of a game result reads as a real number.
proof fn lemma_wdl_text_is_real(w: crate::datagen::GameResult)
    ensures
        is_real_text(wdl_text(w)),
{
    reveal_strlit("inf");
    reveal_strlit("infinity");
    reveal_strlit("nan");
    let s = wdl_text(w);
    if w == crate::datagen::GameResult::Draw {
        assert(s.len() == 3 && s[0] == '0' && s[1] == '.' && s[2] == '5');
        assert(digit_run(s, 3) == 3);
        assert(digit_run(s, 2) == 3);
        assert(digit_run(s, 1) == 1);
        assert(digit_run(s, 0) == 1);
        assert(number_from(s, 0));
    } else {
        assert(s.len() == 1 && is_digit(s[0]));
        assert(digit_run(s, 1) == 1);
        assert(digit_run(s, 0) == 1);
        assert(number_from(s, 0));
    }
    assert(s.subrange(0, s.len() as int) =~= s);
}

/// The fields of a record, in the order its line holds them.
pub open spec fn record_fields(p: crate::datagen::RawPosition) -> Seq<Seq<char>> {
    seq![p.fen@, signed_dec(p.score as int), wdl_text(p.wdl), stm_text(p.stm), dec(p.net_id as nat),
        dec(p.ply as nat), dec(p.nodes as nat), hex(p.pawn_hash as nat, 16)]
}

proof fn lemma_line_as_join(p: crate::datagen::RawPosition)
    ensures
        record_line(p) == join_with(record_fields(p), '|'),
{
    let fs = record_fields(p);
    assert(join_with(fs.take(1), '|') == fs[0]) by {
        assert(fs.take(1).len() == 1);
    }
    assert(fs.take(2) =~= fs.take(1).push(fs[1]));
    lemma_join_push(fs.take(1), fs[1], '|');
    assert(fs.take(3) =~= fs.take(2).push(fs[2]));
    lemma_join_push(fs.take(2), fs[2], '|');
    assert(fs.take(4) =~= fs.take(3).push(fs[3]));
    lemma_join_push(fs.take(3), fs[3], '|');
    assert(fs.take(5) =~= fs.take(4).push(fs[4]));
    lemma_join_push(fs.take(4), fs[4], '|');
    assert(fs.take(6) =~= fs.take(5).push(fs[5]));
    lemma_join_push(fs.take(5), fs[5], '|');
    assert(fs.take(7) =~= fs.take(6).push(fs[6]));
    lemma_join_push(fs.take(6), fs[6], '|');
    assert(fs.take(8) =~= fs.take(7).push(fs[7]));
    lemma_join_push(fs.take(7), fs[7], '|');
    assert(fs.take(8) =~= fs);
}

/// The filter reads back what the data generator writes: the line of a record
/// whose FEN holds no `|` gives that FEN, score, side to move, network, ply, node
/// count and pawn hash, with the game result as its text.
pub proof fn lemma_record_roundtrip(p: crate::datagen::RawPosition)
    requires
        !p.fen@.contains('|'),
    ensures
        spec_from_line(record_line(p)) == Some(
            RecordView {
                fen: p.fen@,
                score: p.score,
                wdl: wdl_text(p.wdl),
                stm: p.stm,
                net_id: p.net_id,
                ply: p.ply,
                nodes: p.nodes,
                pawn_hash: p.pawn_hash,
            },
        ),
{
    let fs = record_fields(p);
    lemma_line_as_join(p);
    lemma_signed_parse(p.score as int);
    lemma_dec_parse(p.net_id as nat, u8::MAX as int);
    lemma_dec_parse(p.ply as nat, usize::MAX as int);
    lemma_dec_parse(p.nodes as nat, u64::MAX as int);
    lemma_dec_value(p.net_id as nat);
    lemma_dec_value(p.ply as nat);
    lemma_dec_value(p.nodes as nat);
    lemma_hex_parse(p.pawn_hash);
    assert(!fs[2].contains('|')) by {
        if p.wdl == crate::datagen::GameResult::Draw {
            assert(fs[2][0] != '|' && fs[2][1] != '|' && fs[2][2] != '|');
        }
    }
    assert(!fs[3].contains('|')) by {
        assert(fs[3].len() == 1 && fs[3][0] != '|');
    }
    assert forall|k: int| 0 <= k < fs.len() - 1 implies !(#[trigger] fs[k]).contains('|') by {
        if k == 0 {
        } else if k == 1 {
        } else if k == 2 {
        } else if k == 3 {
        } else if k == 4 {
        } else if k == 5 {
        } else {
        }
    }
    lemma_pieces_join(fs, '|');
    let parts = pieces(record_line(p), '|', 0, 8);
    assert(parts == fs);
    lemma_wdl_text_is_real(p.wdl);
    assert(stm_of_text(fs[3]) == Some(p.stm)) by {
        if p.stm == Color::White {
            assert(fs[3] =~= seq!['w']);
        } else {
            assert(fs[3] =~= seq!['b']);
            assert(fs[3][0] != seq!['w'][0]);
        }
    }
}

/// Every kept record passes the hard filters.
pub proof fn lemma_kept_pass_filters(ps: Seq<RecordView>, c: FilterConfig, n: int, j: int)
    requires
        0 <= n <= ps.len(),
        0 <= j < kept_seq(ps, c, n).len(),
    ensures
        passes(kept_seq(ps, c, n)[j], c),
    decreases n,
{
    if n > 0 {
        let r = kept_seq(ps, c, n - 1);
        if j < r.len() {
            lemma_kept_pass_filters(ps, c, n - 1, j);
            if kept_at(ps, c, n - 1) {
                assert(r.push(ps[n - 1])[j] == r[j]);
            }
        }
    }
}

proof fn lemma_counts_split(ps: Seq<RecordView>, c: FilterConfig, n: int)
    requires
        0 <= n <= ps.len(),
    ensures
        count_where(n, hard_dropped(ps, c)) + count_where(n, dedup_dropped(ps, c)) + count_where(n, kept_pred(ps, c))
            == n,
        count_where(n, balanced_pred(ps, c)) + count_where(n, imbalanced_pred(ps, c)) == count_where(n, kept_pred(ps, c)),
    decreases n,
{
    if n > 0 {
        lemma_counts_split(ps, c, n - 1);
    }
}

/// The counters of a filtering pass add up: every record read is dropped by the
/// filters, dropped by deduplication, or kept, and every kept record is either
/// balanced or imbalanced.
pub proof fn lemma_stats_add_up(ps: Seq<RecordView>, c: FilterConfig)
    ensures
        count_where(ps.len() as int, hard_dropped(ps, c)) + count_where(ps.len() as int, dedup_dropped(ps, c))
            + count_where(ps.len() as int, kept_pred(ps, c)) == ps.len(),
        count_where(ps.len() as int, balanced_pred(ps, c)) + count_where(ps.len() as int, imbalanced_pred(ps, c))
            == count_where(ps.len() as int, kept_pred(ps, c)),
{
    lemma_counts_split(ps, c, ps.len() as int);
}

// ---------------------------------------------------------------------------
// Shuffle
// ---------------------------------------------------------------------------

/// Exchanges two records.
fn swap_records(data: &mut Vec<RawPosition>, i: usize, j: usize)
    requires
        i < old(data)@.len(),
        j < old(data)@.len(),
    ensures
        final(data)@.len() == old(data)@.len(),
        record_views(final(data)@) == record_views(old(data)@).update(i as int, old(data)@[j as int]@).update(
            j as int,
            old(data)@[i as int]@,
        ),
{
    let ghost v = record_views(data@);
    if i == j {
        proof {
            assert(v.update(i as int, v[j as int]).update(j as int, v[i as int]) =~= v);
        }
        return;
    }
    let mut tmp = data[i].clone();
    data.set_and_swap(j, &mut tmp);
    data.set_and_swap(i, &mut tmp);
    proof {
        assert(record_views(data@) =~= v.update(i as int, old(data)@[j as int]@).update(j as int, old(data)@[i as int]@));
    }
}

/// Fisher-Yates shuffle, seeded with `seed` when there is one. The records come out
/// in some order: the same records, each as many times as before.
pub fn shuffle(data: &mut Vec<RawPosition>, seed: Option<u64>)
    ensures
        record_views(final(data)@).to_multiset() == record_views(old(data)@).to_multiset(),
        final(data)@.len() == old(data)@.len(),
{
    let mut rng = small_rng(seed);
    let n = data.len();
    let mut i: usize = n;
    while i > 1
        invariant
            data@.len() == n,
            i <= n,
            record_views(data@).to_multiset() == record_views(old(data)@).to_multiset(),
        decreases i,
    {
        i -= 1;
        let j = random_at_most(&mut rng, i);
        let ghost v = record_views(data@);
        swap_records(data, i, j);
        proof {
            let a = v[i as int];
            let b = v[j as int];
            assert(v.len() == n);
            vstd::seq_lib::to_multiset_update(v, i as int, b);
            vstd::seq_lib::to_multiset_update(v.update(i as int, b), j as int, a);
            if i == j {
                assert(v.update(i as int, b).update(j as int, a) =~= v);
            } else {
                assert(v.update(i as int, b)[j as int] == b);
                broadcast use vstd::multiset::group_multiset_axioms;
                vstd::seq_lib::to_multiset_contains(v, a);
                assert(v.contains(a));
                assert(v.to_multiset().insert(b).remove(a).insert(a).remove(b) =~= v.to_multiset());
            }
        }
    }
}

/// Prepares the kept records for writing: shuffles them when the configuration asks
/// for it, then keeps the first `target_positions` when there are more (and a target
/// is set). Returns whether it shuffled and whether it truncated.
pub fn select_output(positions: &mut Vec<RawPosition>, config: &FilterConfig) -> (r: (bool, bool))
    ensures
        r.0 == config.shuffle,
        r.1 == (config.target_positions > 0 && old(positions)@.len() > config.target_positions),
        exists|s: Seq<RecordView>| #![trigger s.to_multiset()] {
            &&& s.to_multiset() == record_views(old(positions)@).to_multiset()
            &&& s.len() == old(positions)@.len()
            &&& (!config.shuffle ==> s == record_views(old(positions)@))
            &&& record_views(final(positions)@) == (if r.1 { s.take(config.target_positions as int) } else { s })
        },
{
    let truncated = config.target_positions > 0 && positions.len() > config.target_positions;
    if config.shuffle {
        shuffle(positions, config.shuffle_seed);
    }
    let ghost s = record_views(positions@);
    proof {
        assert(s.len() == positions@.len());
    }
    if truncated {
        positions.truncate(config.target_positions);
        proof {
            assert(record_views(positions@) =~= s.take(config.target_positions as int));
        }
    }
    proof {
        assert(s.to_multiset() == record_views(old(positions)@).to_multiset());
        assert(s.len() == old(positions)@.len());
        assert(!config.shuffle ==> s == record_views(old(positions)@));
        assert(record_views(positions@) == (if truncated { s.take(config.target_positions as int) } else { s }));
    }
    (config.shuffle, truncated)
}

} // verus!
