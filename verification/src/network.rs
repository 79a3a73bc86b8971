//! NNUE evaluation: king-bucketed 768-feature inputs per perspective into a
//! 1536-wide accumulator, then pairwise clipped products and three dense layers
//! selected by an output bucket that depends on the number of pieces.
//!
//! Arithmetic that can leave its integer type on unusual weights wraps, as the
//! network's release build does.

use vstd::prelude::*;
use crate::chess::{BoardState, Color, count_bits, popcount, role_index};
use crate::types::{clamp, trunc_div};

verus! {

pub const L1: usize = 1536;
pub const HALF: usize = 768;
pub const L2: usize = 32;
pub const L3: usize = 16;
pub const SCALE: i32 = 400;
pub const QA: i16 = 255;
pub const Q: i16 = 64;
pub const FT_SHIFT: u32 = 8;
pub const NUM_OUTPUT_BUCKETS: usize = 8;
pub const NUM_INPUT_BUCKETS: usize = 4;
/// Number of input features: 768 per input bucket.
pub const NUM_FEATURES: usize = 3072;

/// Input bucket of a king square seen from its own side.
pub open spec fn king_bucket_layout(sq: int) -> int {
    if sq < 8 {
        if 2 <= sq <= 5 { 1 } else { 0 }
    } else if sq < 16 {
        2
    } else {
        3
    }
}

/// Input bucket of a perspective and whether its features are mirrored left-right:
/// the king's square flipped to the perspective's side, mirrored when on files e-h.
pub open spec fn spec_get_bucket(board: BoardState, perspective: Color) -> (int, bool) {
    let k = board.spec_king_of(perspective) as int;
    let sq = if perspective == Color::Black { (k as u64 ^ 56) as int } else { k };
    (king_bucket_layout(sq), sq % 8 > 3)
}

/// Input bucket and mirroring of a perspective.
pub fn get_bucket(board: &BoardState, perspective: Color) -> (r: (usize, bool))
    requires
        board.wf(),
    ensures
        r.0 == spec_get_bucket(*board, perspective).0,
        r.1 == spec_get_bucket(*board, perspective).1,
        r.0 < NUM_INPUT_BUCKETS,
{
    let king_sq = board.king_of(perspective);
    let mut sq_idx = king_sq as usize;
    if perspective == Color::Black {
        sq_idx = sq_idx ^ 56;
    }
    proof {
        let k = king_sq as usize;
        assert(k < 64 ==> (k ^ 56) < 64) by (bit_vector);
        assert((k as u64 ^ 56) as int == (k ^ 56) as int) by (bit_vector);
    }
    let is_mirrored = sq_idx % 8 > 3;
    let bucket = if sq_idx < 8 {
        if 2 <= sq_idx && sq_idx <= 5 { 1 } else { 0 }
    } else if sq_idx < 16 {
        2
    } else {
        3
    };
    (bucket, is_mirrored)
}

/// Feature index of a piece (`side` 0 white / 1 black, `piece_type` 0..6) on `sq_idx`
/// as seen from `perspective` in an input bucket.
pub open spec fn spec_calculate_index(side: int, sq_idx: int, piece_type: int, perspective: Color, bucket: int, is_mirrored: bool) -> int {
    let side1 = if perspective == Color::Black { 1 - side } else { side };
    let sq1 = if perspective == Color::Black { (sq_idx as u64 ^ 56) as int } else { sq_idx };
    let sq2 = if is_mirrored { (sq1 as u64 ^ 7) as int } else { sq1 };
    bucket * 768 + side1 * 384 + piece_type * 64 + sq2
}

/// Feature index of a piece as seen from a perspective in an input bucket.
pub fn calculate_index(side: usize, sq_idx: usize, piece_type: usize, perspective: Color, bucket: usize, is_mirrored: bool) -> (r: usize)
    requires
        side <= 1,
        sq_idx < 64,
        piece_type < 6,
        bucket < NUM_INPUT_BUCKETS,
    ensures
        r == spec_calculate_index(side as int, sq_idx as int, piece_type as int, perspective, bucket as int, is_mirrored),
        r < NUM_FEATURES,
{
    let mut side = side;
    let mut sq = sq_idx;
    if perspective == Color::Black {
        side = 1 - side;
        sq = sq ^ 56;
    }
    proof {
        let a = sq_idx;
        assert(a < 64 ==> (a ^ 56) < 64 && (a as u64 ^ 56) as int == (a ^ 56) as int) by (bit_vector);
    }
    let sq1 = sq;
    if is_mirrored {
        sq = sq ^ 7;
    }
    proof {
        let b = sq1;
        assert(b < 64 ==> (b ^ 7) < 64 && (b as u64 ^ 7) as int == (b ^ 7) as int) by (bit_vector);
    }
    bucket * 768 + side * 384 + piece_type * 64 + sq
}

/// Square clipped ReLU: the input clamped to `[0, QA]`, squared.
pub fn screlu(x: i16) -> (r: i32)
    ensures
        r == clamp(x as int, 0, QA as int) * clamp(x as int, 0, QA as int),
        0 <= r <= 255 * 255,
{
    let y: i32 = if (x as i32) < 0 { 0 } else if (x as i32) > (QA as i32) { QA as i32 } else { x as i32 };
    proof {
        assert(0 <= y * y <= 255 * 255) by (nonlinear_arith)
            requires
                0 <= y <= 255,
        ;
    }
    y * y
}

/// The input clamped to `[0, qa]`.
fn crelu(x: i16, qa: i16) -> (r: i32)
    requires
        qa >= 0,
    ensures
        r == clamp(x as int, 0, qa as int),
{
    if (x as i32) < 0 { 0 } else if (x as i32) > (qa as i32) { qa as i32 } else { x as i32 }
}

/// A column of the feature-weight matrix, or the running sum of active columns.
pub struct Accumulator {
    pub vals: Vec<i16>,
}

/// Accumulator values after adding (`add`) or removing a weight column, wrapping in 16 bits.
pub open spec fn acc_apply(vals: Seq<i16>, w: Seq<i16>, col: int, add: bool) -> Seq<i16> {
    Seq::new(vals.len(), |i: int| if add { vals[i].wrapping_add(w[col * L1 + i]) } else { vals[i].wrapping_sub(w[col * L1 + i]) })
}

/// The quantised network.
pub struct Network {
    pub feature_weights: Vec<i16>,
    pub feature_bias: Vec<i16>,
    pub l1_weights: Vec<i8>,
    pub l1_bias: Vec<i32>,
    pub l2_weights: Vec<i32>,
    pub l2_bias: Vec<i32>,
    pub l3_weights: Vec<i32>,
    pub l3_bias: Vec<i32>,
}

impl Network {
    /// Every layer has its full size.
    pub open spec fn wf(&self) -> bool {
        &&& self.feature_weights@.len() == NUM_FEATURES * L1
        &&& self.feature_bias@.len() == L1
        &&& self.l1_weights@.len() == L1 * NUM_OUTPUT_BUCKETS * L2
        &&& self.l1_bias@.len() == NUM_OUTPUT_BUCKETS * L2
        &&& self.l2_weights@.len() == L2 * NUM_OUTPUT_BUCKETS * L3
        &&& self.l2_bias@.len() == NUM_OUTPUT_BUCKETS * L3
        &&& self.l3_weights@.len() == L3 * NUM_OUTPUT_BUCKETS
        &&& self.l3_bias@.len() == NUM_OUTPUT_BUCKETS
    }
}

// ---------------------------------------------------------------------------
// Loading
// ---------------------------------------------------------------------------

/// Size in bytes of a network file: the layers in order, little-endian, padded to
/// a multiple of 64 bytes.
pub const NETWORK_BYTES: usize = 9851968;

/// Byte offsets of the layers in a network file.
pub const OFF_FEATURE_BIAS: usize = 9437184;
pub const OFF_L1_WEIGHTS: usize = 9440256;
pub const OFF_L1_BIAS: usize = 9833472;
pub const OFF_L2_WEIGHTS: usize = 9834496;
pub const OFF_L2_BIAS: usize = 9850880;
pub const OFF_L3_WEIGHTS: usize = 9851392;
pub const OFF_L3_BIAS: usize = 9851904;

/// The little-endian `i16` at byte `off`.
pub open spec fn le_i16(bytes: Seq<u8>, off: int) -> i16 {
    (bytes[off] as int + 256 * bytes[off + 1] as int) as i16
}

/// The little-endian `i32` at byte `off`.
pub open spec fn le_i32(bytes: Seq<u8>, off: int) -> i32 {
    (bytes[off] as int + 256 * bytes[off + 1] as int + 65536 * bytes[off + 2] as int
        + 16777216 * bytes[off + 3] as int) as i32
}

/// `n` little-endian `i16`s from byte `off`.
pub open spec fn le_i16s(bytes: Seq<u8>, off: int, n: nat) -> Seq<i16> {
    Seq::new(n, |i: int| le_i16(bytes, off + 2 * i))
}

/// `n` little-endian `i32`s from byte `off`.
pub open spec fn le_i32s(bytes: Seq<u8>, off: int, n: nat) -> Seq<i32> {
    Seq::new(n, |i: int| le_i32(bytes, off + 4 * i))
}

/// `n` bytes from byte `off`, each read as an `i8`.
pub open spec fn le_i8s(bytes: Seq<u8>, off: int, n: nat) -> Seq<i8> {
    Seq::new(n, |i: int| bytes[off + i] as i8)
}

fn read_i16s(bytes: &[u8], off: usize, n: usize) -> (r: Vec<i16>)
    requires
        off + 2 * n <= bytes@.len(),
    ensures
        r@ == le_i16s(bytes@, off as int, n as nat),
{
    let mut v: Vec<i16> = Vec::new();
    let len = bytes.len();
    let mut i: usize = 0;
    while i < n
        invariant
            i <= n,
            len == bytes@.len(),
            off + 2 * n <= bytes@.len(),
            v@.len() == i,
            forall|j: int| 0 <= j < i ==> v@[j] == le_i16(bytes@, off + 2 * j),
        decreases n - i,
    {
        assert(off + 2 * i + 1 < bytes@.len()) by (nonlinear_arith)
            requires
                i < n,
                off + 2 * n <= bytes@.len(),
        ;
        let p = off + 2 * i;
        let b0 = bytes[p];
        let b1 = bytes[p + 1];
        let u: u16 = (b0 as u16) | ((b1 as u16) << 8u16);
        proof {
            assert((b0 as u16) | ((b1 as u16) << 8u16) == b0 as int + 256 * b1 as int) by (bit_vector);
        }
        v.push(u as i16);
        i += 1;
    }
    assert(v@ =~= le_i16s(bytes@, off as int, n as nat));
    v
}

fn read_i32s(bytes: &[u8], off: usize, n: usize) -> (r: Vec<i32>)
    requires
        off + 4 * n <= bytes@.len(),
    ensures
        r@ == le_i32s(bytes@, off as int, n as nat),
{
    let mut v: Vec<i32> = Vec::new();
    let len = bytes.len();
    let mut i: usize = 0;
    while i < n
        invariant
            i <= n,
            len == bytes@.len(),
            off + 4 * n <= bytes@.len(),
            v@.len() == i,
            forall|j: int| 0 <= j < i ==> v@[j] == le_i32(bytes@, off + 4 * j),
        decreases n - i,
    {
        assert(off + 4 * i + 3 < bytes@.len()) by (nonlinear_arith)
            requires
                i < n,
                off + 4 * n <= bytes@.len(),
        ;
        let p = off + 4 * i;
        let b0 = bytes[p];
        let b1 = bytes[p + 1];
        let b2 = bytes[p + 2];
        let b3 = bytes[p + 3];
        let u: u32 = (b0 as u32) | ((b1 as u32) << 8u32) | ((b2 as u32) << 16u32) | ((b3 as u32) << 24u32);
        proof {
            assert((b0 as u32) | ((b1 as u32) << 8u32) | ((b2 as u32) << 16u32) | ((b3 as u32) << 24u32)
                == b0 as int + 256 * b1 as int + 65536 * b2 as int + 16777216 * b3 as int) by (bit_vector);
        }
        v.push(u as i32);
        i += 1;
    }
    assert(v@ =~= le_i32s(bytes@, off as int, n as nat));
    v
}

fn read_i8s(bytes: &[u8], off: usize, n: usize) -> (r: Vec<i8>)
    requires
        off + n <= bytes@.len(),
    ensures
        r@ == le_i8s(bytes@, off as int, n as nat),
{
    let mut v: Vec<i8> = Vec::new();
    let len = bytes.len();
    let mut i: usize = 0;
    while i < n
        invariant
            i <= n,
            len == bytes@.len(),
            off + n <= bytes@.len(),
            v@.len() == i,
            forall|j: int| 0 <= j < i ==> v@[j] == bytes@[off + j] as i8,
        decreases n - i,
    {
        assert(off + i < bytes@.len());
        v.push(bytes[off + i] as i8);
        i += 1;
    }
    assert(v@ =~= le_i8s(bytes@, off as int, n as nat));
    v
}

impl Network {
    /// Reads a network file: `None` unless it has exactly `NETWORK_BYTES` bytes;
    /// otherwise each layer is read little-endian from its offset.
    pub fn load(bytes: &[u8]) -> (r: Option<Network>)
        ensures
            r is Some <==> bytes@.len() == NETWORK_BYTES,
            r matches Some(net) ==> {
                &&& net.wf()
                &&& net.feature_weights@ == le_i16s(bytes@, 0, (NUM_FEATURES * L1) as nat)
                &&& net.feature_bias@ == le_i16s(bytes@, OFF_FEATURE_BIAS as int, L1 as nat)
                &&& net.l1_weights@ == le_i8s(bytes@, OFF_L1_WEIGHTS as int, (L1 * NUM_OUTPUT_BUCKETS * L2) as nat)
                &&& net.l1_bias@ == le_i32s(bytes@, OFF_L1_BIAS as int, (NUM_OUTPUT_BUCKETS * L2) as nat)
                &&& net.l2_weights@ == le_i32s(bytes@, OFF_L2_WEIGHTS as int, (L2 * NUM_OUTPUT_BUCKETS * L3) as nat)
                &&& net.l2_bias@ == le_i32s(bytes@, OFF_L2_BIAS as int, (NUM_OUTPUT_BUCKETS * L3) as nat)
                &&& net.l3_weights@ == le_i32s(bytes@, OFF_L3_WEIGHTS as int, (L3 * NUM_OUTPUT_BUCKETS) as nat)
                &&& net.l3_bias@ == le_i32s(bytes@, OFF_L3_BIAS as int, NUM_OUTPUT_BUCKETS as nat)
            },
    {
        if bytes.len() != NETWORK_BYTES {
            return None;
        }
        Some(Network {
            feature_weights: read_i16s(bytes, 0, NUM_FEATURES * L1),
            feature_bias: read_i16s(bytes, OFF_FEATURE_BIAS, L1),
            l1_weights: read_i8s(bytes, OFF_L1_WEIGHTS, L1 * NUM_OUTPUT_BUCKETS * L2),
            l1_bias: read_i32s(bytes, OFF_L1_BIAS, NUM_OUTPUT_BUCKETS * L2),
            l2_weights: read_i32s(bytes, OFF_L2_WEIGHTS, L2 * NUM_OUTPUT_BUCKETS * L3),
            l2_bias: read_i32s(bytes, OFF_L2_BIAS, NUM_OUTPUT_BUCKETS * L3),
            l3_weights: read_i32s(bytes, OFF_L3_WEIGHTS, L3 * NUM_OUTPUT_BUCKETS),
            l3_bias: read_i32s(bytes, OFF_L3_BIAS, NUM_OUTPUT_BUCKETS),
        })
    }
}

impl Accumulator {
    /// A fresh accumulator: the feature bias.
    pub fn new(net: &Network) -> (r: Accumulator)
        ensures
            r.vals@ == net.feature_bias@,
    {
        Accumulator { vals: net.feature_bias.clone() }
    }

    /// Adds the weight column of a feature.
    pub fn add_feature(&mut self, feature_idx: usize, net: &Network)
        requires
            net.wf(),
            old(self).vals@.len() == L1,
            feature_idx < NUM_FEATURES,
        ensures
            final(self).vals@ == acc_apply(old(self).vals@, net.feature_weights@, feature_idx as int, true),
    {
        let base = feature_idx * L1;
        let mut i: usize = 0;
        while i < L1
            invariant
                i <= L1,
                net.wf(),
                base == feature_idx * L1,
                feature_idx < NUM_FEATURES,
                self.vals@.len() == L1,
                forall|j: int| 0 <= j < i ==> self.vals@[j] == old(self).vals@[j].wrapping_add(net.feature_weights@[base + j]),
                forall|j: int| i <= j < L1 ==> self.vals@[j] == old(self).vals@[j],
            decreases L1 - i,
        {
            let v = self.vals[i].wrapping_add(net.feature_weights[base + i]);
            self.vals.set(i, v);
            i += 1;
        }
        assert(self.vals@ =~= acc_apply(old(self).vals@, net.feature_weights@, feature_idx as int, true));
    }

    /// Removes the weight column of a feature.
    pub fn remove_feature(&mut self, feature_idx: usize, net: &Network)
        requires
            net.wf(),
            old(self).vals@.len() == L1,
            feature_idx < NUM_FEATURES,
        ensures
            final(self).vals@ == acc_apply(old(self).vals@, net.feature_weights@, feature_idx as int, false),
    {
        let base = feature_idx * L1;
        let mut i: usize = 0;
        while i < L1
            invariant
                i <= L1,
                net.wf(),
                base == feature_idx * L1,
                feature_idx < NUM_FEATURES,
                self.vals@.len() == L1,
                forall|j: int| 0 <= j < i ==> self.vals@[j] == old(self).vals@[j].wrapping_sub(net.feature_weights@[base + j]),
                forall|j: int| i <= j < L1 ==> self.vals@[j] == old(self).vals@[j],
            decreases L1 - i,
        {
            let v = self.vals[i].wrapping_sub(net.feature_weights[base + i]);
            self.vals.set(i, v);
            i += 1;
        }
        assert(self.vals@ =~= acc_apply(old(self).vals@, net.feature_weights@, feature_idx as int, false));
    }

    /// Adds the columns of `adds`, then removes the columns of `removes`.
    pub fn apply_feature_updates(&mut self, adds: &[usize], removes: &[usize], net: &Network)
        requires
            net.wf(),
            old(self).vals@.len() == L1,
            forall|i: int| 0 <= i < adds@.len() ==> #[trigger] adds@[i] < NUM_FEATURES,
            forall|i: int| 0 <= i < removes@.len() ==> #[trigger] removes@[i] < NUM_FEATURES,
        ensures
            final(self).vals@ == apply_all(apply_all(old(self).vals@, net.feature_weights@, adds@, true, adds@.len() as int),
                net.feature_weights@, removes@, false, removes@.len() as int),
    {
        let mut k: usize = 0;
        while k < adds.len()
            invariant
                k <= adds@.len(),
                net.wf(),
                self.vals@.len() == L1,
                forall|i: int| 0 <= i < adds@.len() ==> #[trigger] adds@[i] < NUM_FEATURES,
                self.vals@ == apply_all(old(self).vals@, net.feature_weights@, adds@, true, k as int),
            decreases adds@.len() - k,
        {
            self.add_feature(adds[k], net);
            k += 1;
        }
        let ghost mid = self.vals@;
        k = 0;
        while k < removes.len()
            invariant
                k <= removes@.len(),
                net.wf(),
                self.vals@.len() == L1,
                forall|i: int| 0 <= i < removes@.len() ==> #[trigger] removes@[i] < NUM_FEATURES,
                self.vals@ == apply_all(mid, net.feature_weights@, removes@, false, k as int),
            decreases removes@.len() - k,
        {
            self.remove_feature(removes[k], net);
            k += 1;
        }
    }
}

/// Accumulator values after applying the columns of the first `n` indices of `cols`.
pub open spec fn apply_all(vals: Seq<i16>, w: Seq<i16>, cols: Seq<usize>, add: bool, n: int) -> Seq<i16>
    decreases n,
{
    if n <= 0 {
        vals
    } else {
        acc_apply(apply_all(vals, w, cols, add, n - 1), w, cols[n - 1] as int, add)
    }
}

/// `z` wrapped into the range of `i16`.
pub open spec fn norm16(z: int) -> int {
    (z + 32768) % 65536 - 32768
}

/// Sum of the weights of the first `n` columns of `cols` at accumulator index `i`.
pub open spec fn colsum(w: Seq<i16>, cols: Seq<usize>, n: int, i: int) -> int
    decreases n,
{
    if n <= 0 {
        0
    } else {
        colsum(w, cols, n - 1, i) + w[cols[n - 1] * L1 + i] as int
    }
}

proof fn lemma_norm16_add(a: int, b: int)
    ensures
        norm16(norm16(a) + b) == norm16(a + b),
{
    vstd::arithmetic::div_mod::lemma_add_mod_noop_right(b, a + 32768, 65536);
    assert(norm16(a) + b + 32768 == b + (a + 32768) % 65536);
}

proof fn lemma_norm16_id(a: int)
    requires
        -32768 <= a <= 32767,
    ensures
        norm16(a) == a,
{
    vstd::arithmetic::div_mod::lemma_small_mod((a + 32768) as nat, 65536);
}

proof fn lemma_wrapping_norm16(x: i16, y: i16)
    ensures
        x.wrapping_add(y) as int == norm16(x + y),
        x.wrapping_sub(y) as int == norm16(x - y),
{
    let s = x + y;
    if s > 32767 {
        vstd::arithmetic::div_mod::lemma_fundamental_div_mod_converse(s + 32768, 65536, 1, s - 32768);
    } else if s < -32768 {
        vstd::arithmetic::div_mod::lemma_fundamental_div_mod_converse(s + 32768, 65536, -1, s + 98304);
    } else {
        lemma_norm16_id(s);
    }
    let d = x - y;
    if d > 32767 {
        vstd::arithmetic::div_mod::lemma_fundamental_div_mod_converse(d + 32768, 65536, 1, d - 32768);
    } else if d < -32768 {
        vstd::arithmetic::div_mod::lemma_fundamental_div_mod_converse(d + 32768, 65536, -1, d + 98304);
    } else {
        lemma_norm16_id(d);
    }
}

/// Applying a list of columns adds (or subtracts) their sum at every index, wrapping.
pub proof fn lemma_apply_all_sum(vals: Seq<i16>, w: Seq<i16>, cols: Seq<usize>, add: bool, n: int)
    requires
        0 <= n,
    ensures
        apply_all(vals, w, cols, add, n).len() == vals.len(),
        forall|i: int| 0 <= i < vals.len() ==> #[trigger] apply_all(vals, w, cols, add, n)[i] as int
            == norm16(vals[i] + (if add { colsum(w, cols, n, i) } else { -colsum(w, cols, n, i) })),
    decreases n,
{
    if n == 0 {
        assert forall|i: int| 0 <= i < vals.len() implies #[trigger] apply_all(vals, w, cols, add, n)[i] as int
            == norm16(vals[i] + (if add { colsum(w, cols, n, i) } else { -colsum(w, cols, n, i) })) by {
            lemma_norm16_id(vals[i] as int);
        }
    } else {
        lemma_apply_all_sum(vals, w, cols, add, n - 1);
        let prev = apply_all(vals, w, cols, add, n - 1);
        assert forall|i: int| 0 <= i < vals.len() implies #[trigger] apply_all(vals, w, cols, add, n)[i] as int
            == norm16(vals[i] + (if add { colsum(w, cols, n, i) } else { -colsum(w, cols, n, i) })) by {
            let c = w[cols[n - 1] * L1 + i];
            lemma_wrapping_norm16(prev[i], c);
            let s0 = if add { colsum(w, cols, n - 1, i) } else { -colsum(w, cols, n - 1, i) };
            if add {
                lemma_norm16_add(vals[i] + s0, c as int);
            } else {
                lemma_norm16_add(vals[i] + s0, -c);
            }
        }
    }
}

/// Removing the columns `removes`, adding `adds`, then removing `adds` and adding
/// `removes` back gives back the accumulator, whatever the order within each list.
pub proof fn lemma_update_undo(vals: Seq<i16>, w: Seq<i16>, removes: Seq<usize>, adds: Seq<usize>)
    ensures
        apply_all(apply_all(apply_all(apply_all(vals, w, removes, false, removes.len() as int), w, adds, true,
            adds.len() as int), w, adds, false, adds.len() as int), w, removes, true, removes.len() as int) == vals,
{
    let nr = removes.len() as int;
    let na = adds.len() as int;
    let v1 = apply_all(vals, w, removes, false, nr);
    let v2 = apply_all(v1, w, adds, true, na);
    let v3 = apply_all(v2, w, adds, false, na);
    let v4 = apply_all(v3, w, removes, true, nr);
    lemma_apply_all_sum(vals, w, removes, false, nr);
    lemma_apply_all_sum(v1, w, adds, true, na);
    lemma_apply_all_sum(v2, w, adds, false, na);
    lemma_apply_all_sum(v3, w, removes, true, nr);
    assert forall|i: int| 0 <= i < vals.len() implies v4[i] == vals[i] by {
        let r = colsum(w, removes, nr, i);
        let a = colsum(w, adds, na, i);
        lemma_norm16_add(vals[i] - r, a);
        lemma_norm16_add(vals[i] - r + a, -a);
        lemma_norm16_add(vals[i] - r + a - a, r);
        lemma_norm16_id(vals[i] as int);
        assert(v1[i] as int == norm16(vals[i] - r));
        assert(v2[i] as int == norm16(v1[i] + a));
        assert(v3[i] as int == norm16(v2[i] - a));
        assert(v4[i] as int == norm16(v3[i] + r));
    }
    assert(v4 =~= vals);
}

/// Removing a column right after adding it gives back the accumulator.
pub proof fn lemma_add_remove_inverse(vals: Seq<i16>, w: Seq<i16>, col: int)
    ensures
        acc_apply(acc_apply(vals, w, col, true), w, col, false) == vals,
        acc_apply(acc_apply(vals, w, col, false), w, col, true) == vals,
{
    let a = acc_apply(acc_apply(vals, w, col, true), w, col, false);
    assert forall|i: int| 0 <= i < vals.len() implies a[i] == vals[i] by {
        let x = vals[i];
        let y = w[col * L1 + i];
        assert(x.wrapping_add(y).wrapping_sub(y) == x);
    }
    assert(a =~= vals);
    let b = acc_apply(acc_apply(vals, w, col, false), w, col, true);
    assert forall|i: int| 0 <= i < vals.len() implies b[i] == vals[i] by {
        let x = vals[i];
        let y = w[col * L1 + i];
        assert(x.wrapping_sub(y).wrapping_add(y) == x);
    }
    assert(b =~= vals);
}


/// Feature index of the piece on an occupied square as seen from a perspective.
pub open spec fn square_feature(board: BoardState, sq: int, perspective: Color, bucket: int, is_mirrored: bool) -> int {
    let side = if board.spec_color_at(sq as u8) == Some(Color::White) { 0int } else { 1int };
    spec_calculate_index(side, sq, role_index(board.spec_role_at(sq as u8)->0) as int, perspective, bucket, is_mirrored)
}

/// The feature bias plus the columns of the pieces on the first `n` squares.
pub open spec fn acc_of_board(net: &Network, board: BoardState, perspective: Color, bucket: int, is_mirrored: bool, n: int) -> Seq<i16>
    decreases n,
{
    if n <= 0 {
        net.feature_bias@
    } else {
        let prev = acc_of_board(net, board, perspective, bucket, is_mirrored, n - 1);
        if board.spec_role_at((n - 1) as u8) is Some {
            acc_apply(prev, net.feature_weights@, square_feature(board, n - 1, perspective, bucket, is_mirrored), true)
        } else {
            prev
        }
    }
}

/// The accumulator of a whole board from one perspective, with that perspective's
/// input bucket and mirroring.
pub fn accumulator_for_perspective(board: &BoardState, net: &Network, perspective: Color) -> (r: (Accumulator, usize, bool))
    requires
        board.wf(),
        net.wf(),
    ensures
        r.1 == spec_get_bucket(*board, perspective).0,
        r.2 == spec_get_bucket(*board, perspective).1,
        r.0.vals@ == acc_of_board(net, *board, perspective, r.1 as int, r.2, 64),
{
    let mut acc = Accumulator::new(net);
    let (bucket, is_mirrored) = get_bucket(board, perspective);
    let mut sq: u8 = 0;
    while sq < 64
        invariant
            sq <= 64,
            board.wf(),
            net.wf(),
            bucket < NUM_INPUT_BUCKETS,
            acc.vals@.len() == L1,
            acc.vals@ == acc_of_board(net, *board, perspective, bucket as int, is_mirrored, sq as int),
        decreases 64 - sq,
    {
        match board.role_at(sq) {
            Some(role) => {
                proof {
                    board.lemma_occupied_role(sq);
                }
                let side: usize = match board.color_at(sq) {
                    Some(Color::White) => 0,
                    _ => 1,
                };
                let idx = calculate_index(side, sq as usize, role_index(role), perspective, bucket, is_mirrored);
                acc.add_feature(idx, net);
            },
            None => {},
        }
        sq += 1;
    }
    (acc, bucket, is_mirrored)
}

// ---------------------------------------------------------------------------
// Forward pass
// ---------------------------------------------------------------------------

/// Clipped product of a pair of accumulator halves, shifted back by `FT_SHIFT`.
pub open spec fn pair_act(acc: Seq<i16>, i: int) -> int {
    (clamp(acc[i] as int, 0, QA as int) * clamp(acc[i + HALF] as int, 0, QA as int)) / 256
}

/// First hidden layer: the side to move's pairs, then the opponent's.
pub open spec fn hidden1(us: Seq<i16>, them: Seq<i16>, i: int) -> int {
    if i < HALF {
        pair_act(us, i)
    } else {
        pair_act(them, i - HALF)
    }
}

/// Output bucket of a position: by number of pieces on the board.
pub open spec fn spec_bucket(board: BoardState) -> int {
    (popcount(board.white | board.black) - 2) / 4
}

/// Dot product of the first `n` first-layer activations with neuron `o`'s weights.
pub open spec fn dot1(net: &Network, us: Seq<i16>, them: Seq<i16>, bucket: int, o: int, n: int) -> int
    decreases n,
{
    if n <= 0 {
        0
    } else {
        dot1(net, us, them, bucket, o, n - 1) + hidden1(us, them, n - 1) * (net.l1_weights@[bucket * L2 * L1 + o * L1 + n - 1] as int)
    }
}

/// Second hidden layer, neuron `o`.
pub open spec fn hidden2(net: &Network, us: Seq<i16>, them: Seq<i16>, bucket: int, o: int) -> int {
    let sum = (dot1(net, us, them, bucket, o, L1 as int) as i32).wrapping_add(net.l1_bias@[bucket * L2 + o]);
    clamp(trunc_div(sum as int, Q as int), 0, Q as int)
}

/// Wrapping dot product of the first `n` second-layer activations with neuron `o`'s weights.
pub open spec fn dot2(net: &Network, h2: Seq<i32>, bucket: int, o: int, n: int) -> i32
    decreases n,
{
    if n <= 0 {
        0
    } else {
        dot2(net, h2, bucket, o, n - 1).wrapping_add(h2[n - 1].wrapping_mul(net.l2_weights@[bucket * L3 * L2 + o * L2 + n - 1]))
    }
}

/// Third hidden layer, neuron `o`.
pub open spec fn hidden3(net: &Network, h2: Seq<i32>, bucket: int, o: int) -> int {
    let sum = dot2(net, h2, bucket, o, L2 as int).wrapping_add(net.l2_bias@[bucket * L3 + o]);
    clamp(trunc_div(sum as int, 4096), 0, Q as int)
}

/// Wrapping output sum over the first `n` third-layer activations.
pub open spec fn dot3(net: &Network, h3: Seq<i32>, bucket: int, n: int) -> i32
    decreases n,
{
    if n <= 0 {
        net.l3_bias@[bucket]
    } else {
        dot3(net, h3, bucket, n - 1).wrapping_add(h3[n - 1].wrapping_mul(net.l3_weights@[bucket * L3 + n - 1]))
    }
}

/// The network's evaluation in centipawns from the side to move's point of view.
pub open spec fn spec_evaluate(net: &Network, us: Seq<i16>, them: Seq<i16>, board: BoardState) -> int {
    let bucket = spec_bucket(board);
    let h2 = Seq::new(L2 as nat, |o: int| hidden2(net, us, them, bucket, o) as i32);
    let h3 = Seq::new(L3 as nat, |o: int| hidden3(net, h2, bucket, o) as i32);
    trunc_div(dot3(net, h3, bucket, L3 as int).wrapping_mul(SCALE) as int, 16777216)
}

proof fn lemma_dot1_bound(net: &Network, us: Seq<i16>, them: Seq<i16>, bucket: int, o: int, n: int)
    requires
        0 <= n,
    ensures
        -n * 254 * 128 <= dot1(net, us, them, bucket, o, n) <= n * 254 * 128,
    decreases n,
{
    if n > 0 {
        lemma_dot1_bound(net, us, them, bucket, o, n - 1);
        let h = hidden1(us, them, n - 1);
        let w = net.l1_weights@[bucket * L2 * L1 + o * L1 + n - 1] as int;
        assert(0 <= h <= 254) by {
            let a = clamp(us[n - 1] as int, 0, 255);
            let b = clamp(us[n - 1 + HALF] as int, 0, 255);
            let c = clamp(them[n - 1 - HALF] as int, 0, 255);
            let d = clamp(them[n - 1 - HALF + HALF] as int, 0, 255);
            assert(0 <= a * b <= 255 * 255) by (nonlinear_arith)
                requires
                    0 <= a <= 255,
                    0 <= b <= 255,
            ;
            assert(0 <= c * d <= 255 * 255) by (nonlinear_arith)
                requires
                    0 <= c <= 255,
                    0 <= d <= 255,
            ;
        }
        assert(-254 * 128 <= h * w <= 254 * 128) by (nonlinear_arith)
            requires
                0 <= h <= 254,
                -128 <= w <= 127,
        ;
    }
}

impl Network {
    /// Output bucket of a position.
    pub fn bucket(&self, board: &BoardState) -> (r: usize)
        requires
            board.wf(),
        ensures
            r == spec_bucket(*board),
            r < NUM_OUTPUT_BUCKETS,
    {
        let count = count_bits(board.white | board.black);
        ((count - 2) / 4) as usize
    }

    /// Evaluation of a position from the side to move's accumulator `us` and the
    /// opponent's accumulator `them`.
    pub fn evaluate(&self, us: &Accumulator, them: &Accumulator, board: &BoardState) -> (r: i32)
        requires
            self.wf(),
            us.vals@.len() == L1,
            them.vals@.len() == L1,
            board.wf(),
        ensures
            r == spec_evaluate(self, us.vals@, them.vals@, *board),
    {
        let bucket = self.bucket(board);
        let mut hl1: Vec<i32> = Vec::new();
        let mut i: usize = 0;
        while i < HALF
            invariant
                i <= HALF,
                us.vals@.len() == L1,
                hl1@.len() == i,
                forall|j: int| 0 <= j < i ==> hl1@[j] == hidden1(us.vals@, them.vals@, j),
            decreases HALF - i,
        {
            let a = crelu(us.vals[i], QA);
            let b = crelu(us.vals[i + HALF], QA);
            proof {
                assert(0 <= a * b <= 255 * 255) by (nonlinear_arith)
                    requires
                        0 <= a <= 255,
                        0 <= b <= 255,
                ;
            }
            let p: i32 = a * b;
            proof {
                assert(p >> 8u32 == p / 256) by (bit_vector)
                    requires
                        p >= 0,
                ;
                assert(p >> 8u32 == pair_act(us.vals@, i as int));
            }
            hl1.push(p >> FT_SHIFT);
            i += 1;
        }
        i = 0;
        while i < HALF
            invariant
                i <= HALF,
                them.vals@.len() == L1,
                hl1@.len() == HALF + i,
                forall|j: int| 0 <= j < HALF + i ==> hl1@[j] == hidden1(us.vals@, them.vals@, j),
            decreases HALF - i,
        {
            let a = crelu(them.vals[i], QA);
            let b = crelu(them.vals[i + HALF], QA);
            proof {
                assert(0 <= a * b <= 255 * 255) by (nonlinear_arith)
                    requires
                        0 <= a <= 255,
                        0 <= b <= 255,
                ;
            }
            let p: i32 = a * b;
            proof {
                assert(p >> 8u32 == p / 256) by (bit_vector)
                    requires
                        p >= 0,
                ;
                assert(p >> 8u32 == pair_act(them.vals@, i as int));
                assert(hidden1(us.vals@, them.vals@, HALF + i) == pair_act(them.vals@, i as int));
            }
            hl1.push(p >> FT_SHIFT);
            i += 1;
        }
        let l1_off = bucket * L2 * L1;
        let l1_bias_off = bucket * L2;
        let mut hl2: Vec<i32> = Vec::new();
        let mut o: usize = 0;
        while o < L2
            invariant
                o <= L2,
                self.wf(),
                bucket < NUM_OUTPUT_BUCKETS,
                bucket == spec_bucket(*board),
                l1_off == bucket * L2 * L1,
                l1_bias_off == bucket * L2,
                hl1@.len() == L1,
                forall|j: int| 0 <= j < L1 ==> hl1@[j] == hidden1(us.vals@, them.vals@, j),
                hl2@.len() == o,
                forall|j: int| 0 <= j < o ==> hl2@[j] == hidden2(self, us.vals@, them.vals@, bucket as int, j),
            decreases L2 - o,
        {
            let mut sum: i32 = 0;
            let mut k: usize = 0;
            while k < L1
                invariant
                    k <= L1,
                    o < L2,
                    self.wf(),
                    bucket < NUM_OUTPUT_BUCKETS,
                    l1_off == bucket * L2 * L1,
                    hl1@.len() == L1,
                    forall|j: int| 0 <= j < L1 ==> hl1@[j] == hidden1(us.vals@, them.vals@, j),
                    sum == dot1(self, us.vals@, them.vals@, bucket as int, o as int, k as int),
                decreases L1 - k,
            {
                proof {
                    lemma_dot1_bound(self, us.vals@, them.vals@, bucket as int, o as int, k as int + 1);
                    lemma_dot1_bound(self, us.vals@, them.vals@, bucket as int, o as int, k as int);
                    assert(l1_off + o * L1 + k < L1 * NUM_OUTPUT_BUCKETS * L2) by (nonlinear_arith)
                        requires
                            bucket < NUM_OUTPUT_BUCKETS,
                            l1_off == bucket * L2 * L1,
                            o < L2,
                            k < L1,
                    ;
                }
                sum = sum + hl1[k] * (self.l1_weights[l1_off + o * L1 + k] as i32);
                k += 1;
            }
            let biased = sum.wrapping_add(self.l1_bias[l1_bias_off + o]);
            let q = biased / (Q as i32);
            let h: i32 = if q < 0 { 0 } else if q > Q as i32 { Q as i32 } else { q };
            hl2.push(h);
            o += 1;
        }
        let l2_off = bucket * L3 * L2;
        let l2_bias_off = bucket * L3;
        let mut hl3: Vec<i32> = Vec::new();
        o = 0;
        while o < L3
            invariant
                o <= L3,
                self.wf(),
                bucket < NUM_OUTPUT_BUCKETS,
                l2_off == bucket * L3 * L2,
                l2_bias_off == bucket * L3,
                hl2@.len() == L2,
                hl3@.len() == o,
                forall|j: int| 0 <= j < o ==> hl3@[j] == hidden3(self, hl2@, bucket as int, j),
            decreases L3 - o,
        {
            let mut sum: i32 = 0;
            let mut k: usize = 0;
            while k < L2
                invariant
                    k <= L2,
                    o < L3,
                    self.wf(),
                    bucket < NUM_OUTPUT_BUCKETS,
                    l2_off == bucket * L3 * L2,
                    hl2@.len() == L2,
                    sum == dot2(self, hl2@, bucket as int, o as int, k as int),
                decreases L2 - k,
            {
                proof {
                    assert(l2_off + o * L2 + k < L2 * NUM_OUTPUT_BUCKETS * L3) by (nonlinear_arith)
                        requires
                            bucket < NUM_OUTPUT_BUCKETS,
                            l2_off == bucket * L3 * L2,
                            o < L3,
                            k < L2,
                    ;
                }
                sum = sum.wrapping_add(hl2[k].wrapping_mul(self.l2_weights[l2_off + o * L2 + k]));
                k += 1;
            }
            let biased = sum.wrapping_add(self.l2_bias[l2_bias_off + o]);
            let q = biased / 4096;
            let h: i32 = if q < 0 { 0 } else if q > Q as i32 { Q as i32 } else { q };
            hl3.push(h);
            o += 1;
        }
        let l3_off = bucket * L3;
        let mut output: i32 = self.l3_bias[bucket];
        let mut k: usize = 0;
        while k < L3
            invariant
                k <= L3,
                self.wf(),
                bucket < NUM_OUTPUT_BUCKETS,
                l3_off == bucket * L3,
                hl3@.len() == L3,
                output == dot3(self, hl3@, bucket as int, k as int),
            decreases L3 - k,
        {
            output = output.wrapping_add(hl3[k].wrapping_mul(self.l3_weights[l3_off + k]));
            k += 1;
        }
        proof {
            let h2s = Seq::new(L2 as nat, |j: int| hidden2(self, us.vals@, them.vals@, bucket as int, j) as i32);
            assert(hl2@ =~= h2s);
            let h3s = Seq::new(L3 as nat, |j: int| hidden3(self, h2s, bucket as int, j) as i32);
            assert(hl3@ =~= h3s);
        }
        output.wrapping_mul(SCALE) / 16777216
    }
}


/// A first-layer weight: output bucket `b`, second-layer neuron `o`, input `j`.
pub open spec fn l1_weight(net: &Network, b: int, o: int, j: int) -> int {
    net.l1_weights@[b * L2 * L1 + o * L1 + j] as int
}

proof fn lemma_dot1_halves(net: &Network, us: Seq<i16>, them: Seq<i16>, us2: Seq<i16>, them2: Seq<i16>, bucket: int,
    o: int, n: int)
    requires
        0 <= n <= L1,
        forall|j: int| 0 <= j < n && j < HALF ==> us[j] == us2[j] || l1_weight(net, bucket, o, j) == 0,
        forall|j: int| 0 <= j < n && j < HALF ==> us[j + HALF] == us2[j + HALF] || l1_weight(net, bucket, o, j) == 0,
        forall|j: int| HALF <= j < n ==> them[j - HALF] == them2[j - HALF] || l1_weight(net, bucket, o, j) == 0,
        forall|j: int| HALF <= j < n ==> them[j] == them2[j] || l1_weight(net, bucket, o, j) == 0,
    ensures
        dot1(net, us, them, bucket, o, n) == dot1(net, us2, them2, bucket, o, n),
    decreases n,
{
    if n > 0 {
        lemma_dot1_halves(net, us, them, us2, them2, bucket, o, n - 1);
        let j = n - 1;
        assert(net.l1_weights@[bucket * L2 * L1 + o * L1 + n - 1] as int == l1_weight(net, bucket, o, j));
        if l1_weight(net, bucket, o, j) != 0 {
            if j < HALF {
                assert(us[j] == us2[j] && us[j + HALF] == us2[j + HALF]);
            } else {
                assert(them[j - HALF] == them2[j - HALF] && them[j - HALF + HALF] == them2[j - HALF + HALF]);
            }
        }
    }
}

/// The network reads the side to move's accumulator through the first half of the
/// first layer and the opponent's through the second half: with the second half's
/// weights all zero the opponent's accumulator does not change the evaluation, and
/// with the first half's weights all zero the side to move's does not.
pub proof fn lemma_evaluate_perspectives(net: &Network, us: Seq<i16>, them: Seq<i16>, us2: Seq<i16>, them2: Seq<i16>,
    board: BoardState)
    ensures
        (forall|b: int, o: int, j: int| HALF <= j < L1 ==> #[trigger] l1_weight(net, b, o, j) == 0)
            ==> spec_evaluate(net, us, them, board) == spec_evaluate(net, us, them2, board),
        (forall|b: int, o: int, j: int| 0 <= j < HALF ==> #[trigger] l1_weight(net, b, o, j) == 0)
            ==> spec_evaluate(net, us, them, board) == spec_evaluate(net, us2, them, board),
{
    let bucket = spec_bucket(board);
    if forall|b: int, o: int, j: int| HALF <= j < L1 ==> #[trigger] l1_weight(net, b, o, j) == 0 {
        assert forall|o: int| 0 <= o < L2 implies hidden2(net, us, them, bucket, o) == hidden2(net, us, them2, bucket, o)
        by {
            assert forall|j: int| HALF <= j < L1 implies them[j - HALF] == them2[j - HALF]
                || l1_weight(net, bucket, o, j) == 0 by {
                assert(l1_weight(net, bucket, o, j) == 0);
            }
            assert forall|j: int| HALF <= j < L1 implies them[j] == them2[j] || l1_weight(net, bucket, o, j) == 0 by {
                assert(l1_weight(net, bucket, o, j) == 0);
            }
            lemma_dot1_halves(net, us, them, us, them2, bucket, o, L1 as int);
        }
        let h2a = Seq::new(L2 as nat, |o: int| hidden2(net, us, them, bucket, o) as i32);
        let h2b = Seq::new(L2 as nat, |o: int| hidden2(net, us, them2, bucket, o) as i32);
        assert(h2a =~= h2b);
    }
    if forall|b: int, o: int, j: int| 0 <= j < HALF ==> #[trigger] l1_weight(net, b, o, j) == 0 {
        assert forall|o: int| 0 <= o < L2 implies hidden2(net, us, them, bucket, o) == hidden2(net, us2, them, bucket, o)
        by {
            assert forall|j: int| 0 <= j < L1 && j < HALF implies us[j] == us2[j] || l1_weight(net, bucket, o, j) == 0 by {
                assert(l1_weight(net, bucket, o, j) == 0);
            }
            assert forall|j: int| 0 <= j < L1 && j < HALF implies us[j + HALF] == us2[j + HALF]
                || l1_weight(net, bucket, o, j) == 0 by {
                assert(l1_weight(net, bucket, o, j) == 0);
            }
            lemma_dot1_halves(net, us, them, us2, them, bucket, o, L1 as int);
        }
        let h2a = Seq::new(L2 as nat, |o: int| hidden2(net, us, them, bucket, o) as i32);
        let h2b = Seq::new(L2 as nat, |o: int| hidden2(net, us2, them, bucket, o) as i32);
        assert(h2a =~= h2b);
    }
}

} // verus!
