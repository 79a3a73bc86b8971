//! Text helpers over the characters of a string: whitespace tokens, comparison
//! with a word, ASCII case folding, and decimal integers as Rust's `FromStr`
//! reads them (an optional sign, then one or more ASCII digits, in range).

use vstd::prelude::*;
use vstd::string::StrSliceExecFns;
use vstd::string::StringExecFns;

verus! {

/// Whether a character is white space (Unicode `White_Space`, as `char::is_whitespace`).
pub open spec fn is_ws(c: char) -> bool {
    let u = c as u32;
    ||| u == 0x20
    ||| (0x09 <= u && u <= 0x0d)
    ||| u == 0x85
    ||| u == 0xa0
    ||| u == 0x1680
    ||| (0x2000 <= u && u <= 0x200a)
    ||| u == 0x2028
    ||| u == 0x2029
    ||| u == 0x202f
    ||| u == 0x205f
    ||| u == 0x3000
}

/// Whether a character is white space.
pub fn is_whitespace(c: char) -> (r: bool)
    ensures
        r == is_ws(c),
{
    let u = c as u32;
    u == 0x20 || (0x09 <= u && u <= 0x0d) || u == 0x85 || u == 0xa0 || u == 0x1680 || (0x2000 <= u && u <= 0x200a)
        || u == 0x2028 || u == 0x2029 || u == 0x202f || u == 0x205f || u == 0x3000
}

/// End of the token starting at `i`: the first white space at or after `i`.
pub open spec fn token_end(s: Seq<char>, i: int) -> int
    decreases s.len() - i,
{
    if i >= s.len() || is_ws(s[i]) {
        i
    } else {
        token_end(s, i + 1)
    }
}

/// A token runs from its start to the next white space.
pub proof fn lemma_token_end(s: Seq<char>, i: int)
    requires
        0 <= i <= s.len(),
    ensures
        i <= token_end(s, i) <= s.len(),
        forall|k: int| i <= k < token_end(s, i) ==> !is_ws(#[trigger] s[k]),
        token_end(s, i) < s.len() ==> is_ws(s[token_end(s, i)]),
    decreases s.len() - i,
{
    if i < s.len() && !is_ws(s[i]) {
        lemma_token_end(s, i + 1);
    }
}

/// The whitespace-separated tokens of `s` from position `i` on.
pub open spec fn tokens_from(s: Seq<char>, i: int) -> Seq<Seq<char>>
    decreases s.len() - i, 1int,
{
    if i < 0 || i >= s.len() {
        Seq::empty()
    } else if is_ws(s[i]) {
        tokens_from(s, i + 1)
    } else {
        let j = token_end(s, i + 1);
        proof {
            if i + 1 <= s.len() {
                lemma_token_end(s, i + 1);
            }
        }
        if j > i && j <= s.len() {
            seq![s.subrange(i, j)] + tokens_from(s, j)
        } else {
            Seq::empty()
        }
    }
}

/// The whitespace-separated tokens of `s` (`str::split_whitespace`).
pub open spec fn tokens(s: Seq<char>) -> Seq<Seq<char>> {
    tokens_from(s, 0)
}

/// The characters of a list of strings.
pub open spec fn views(v: Seq<String>) -> Seq<Seq<char>> {
    v.map_values(|t: String| t@)
}

/// Splits a string into its whitespace-separated tokens.
pub fn split_tokens(input: &str) -> (r: Vec<String>)
    ensures
        views(r@) == tokens(input@),
{
    let n = input.unicode_len();
    let mut out: Vec<String> = Vec::new();
    let mut i: usize = 0;
    proof {
        assert(views(out@) + tokens_from(input@, 0) =~= tokens(input@));
    }
    while i < n
        invariant
            n == input@.len(),
            i <= n,
            views(out@) + tokens_from(input@, i as int) == tokens(input@),
        decreases n - i,
    {
        let c = input.get_char(i);
        if is_whitespace(c) {
            i += 1;
        } else {
            let mut j = i + 1;
            proof {
                lemma_token_end(input@, i + 1);
            }
            while j < n
                invariant
                    n == input@.len(),
                    i < j <= n,
                    j <= token_end(input@, i + 1),
                    token_end(input@, j as int) == token_end(input@, i + 1),
                ensures
                    j == token_end(input@, i + 1),
                decreases n - j,
            {
                let d = input.get_char(j);
                if is_whitespace(d) {
                    proof {
                        lemma_token_end(input@, j as int);
                    }
                    break;
                }
                proof {
                    lemma_token_end(input@, j + 1);
                }
                j += 1;
            }
            proof {
                lemma_token_end(input@, j as int);
            }
            assert(j == token_end(input@, i + 1));
            let tok = input.substring_char(i, j).to_owned();
            proof {
                assert(views(out@.push(tok)) =~= views(out@).push(tok@));
                assert(views(out@).push(tok@) + tokens_from(input@, j as int)
                    =~= views(out@) + (seq![input@.subrange(i as int, j as int)] + tokens_from(input@, j as int)));
            }
            out.push(tok);
            i = j;
        }
    }
    proof {
        assert(views(out@) + Seq::<Seq<char>>::empty() =~= views(out@));
    }
    out
}

/// Whether a string's characters are those of `lit`.
pub fn eq_text(a: &str, lit: &str) -> (r: bool)
    ensures
        r == (a@ == lit@),
{
    let n = a.unicode_len();
    let m = lit.unicode_len();
    if n != m {
        return false;
    }
    let mut i: usize = 0;
    while i < n
        invariant
            n == a@.len(),
            n == lit@.len(),
            i <= n,
            forall|k: int| 0 <= k < i ==> a@[k] == lit@[k],
        decreases n - i,
    {
        if a.get_char(i) != lit.get_char(i) {
            return false;
        }
        i += 1;
    }
    assert(a@ =~= lit@);
    true
}

/// Code of a character with ASCII upper case letters folded to lower case.
pub open spec fn fold(c: char) -> u32 {
    if 'A' <= c && c <= 'Z' { ((c as u32) + 32) as u32 } else { c as u32 }
}

/// Whether two strings are equal ignoring ASCII case (`str::eq_ignore_ascii_case`).
pub open spec fn eq_ignore_case(a: Seq<char>, b: Seq<char>) -> bool {
    a.len() == b.len() && forall|k: int| 0 <= k < a.len() ==> fold(#[trigger] a[k]) == fold(b[k])
}

fn fold_char(c: char) -> (r: u32)
    ensures
        r == fold(c),
{
    if 'A' <= c && c <= 'Z' {
        (c as u32) + 32
    } else {
        c as u32
    }
}

/// Whether a string equals `lit` ignoring ASCII case.
pub fn eq_text_ignore_case(a: &str, lit: &str) -> (r: bool)
    ensures
        r == eq_ignore_case(a@, lit@),
{
    let n = a.unicode_len();
    let m = lit.unicode_len();
    if n != m {
        return false;
    }
    let mut i: usize = 0;
    while i < n
        invariant
            n == a@.len(),
            n == lit@.len(),
            i <= n,
            forall|k: int| 0 <= k < i ==> fold(#[trigger] a@[k]) == fold(lit@[k]),
        decreases n - i,
    {
        if fold_char(a.get_char(i)) != fold_char(lit.get_char(i)) {
            return false;
        }
        i += 1;
    }
    true
}

/// Code of a character lower-cased, for the characters whose lower case is an ASCII
/// letter: the ASCII capitals and the Kelvin sign (U+212A, lower case `k`). Any other
/// character keeps its code; its lower case is itself or text that is not ASCII.
pub open spec fn fold_lower(c: char) -> u32 {
    if 'A' <= c && c <= 'Z' {
        ((c as u32) + 32) as u32
    } else if c as u32 == 0x212a {
        0x6b
    } else {
        c as u32
    }
}

/// Whether a string lower-cased (`str::to_lowercase`) is the lower-case ASCII text `lit`.
pub open spec fn eq_lowercase(a: Seq<char>, lit: Seq<char>) -> bool {
    a.len() == lit.len() && forall|k: int| 0 <= k < a.len() ==> fold_lower(#[trigger] a[k]) == lit[k] as u32
}

fn fold_lower_char(c: char) -> (r: u32)
    ensures
        r == fold_lower(c),
{
    if 'A' <= c && c <= 'Z' {
        (c as u32) + 32
    } else if c as u32 == 0x212a {
        0x6b
    } else {
        c as u32
    }
}

/// Whether a string lower-cased is the lower-case ASCII text `lit`.
pub fn eq_text_lowercase(a: &str, lit: &str) -> (r: bool)
    ensures
        r == eq_lowercase(a@, lit@),
{
    let n = a.unicode_len();
    let m = lit.unicode_len();
    if n != m {
        return false;
    }
    let mut i: usize = 0;
    while i < n
        invariant
            n == a@.len(),
            n == lit@.len(),
            i <= n,
            forall|k: int| 0 <= k < i ==> fold_lower(#[trigger] a@[k]) == lit@[k] as u32,
        decreases n - i,
    {
        if fold_lower_char(a.get_char(i)) != lit.get_char(i) as u32 {
            return false;
        }
        i += 1;
    }
    true
}

// ---------------------------------------------------------------------------
// Decimal integers
// ---------------------------------------------------------------------------

/// Whether a character is an ASCII digit.
pub open spec fn is_digit(c: char) -> bool {
    '0' <= c && c <= '9'
}

/// Value of the decimal digits `s[0 .. n]`.
pub open spec fn digits_value(s: Seq<char>, n: int) -> int
    decreases n,
{
    if n <= 0 {
        0
    } else {
        digits_value(s, n - 1) * 10 + ((s[n - 1] as u32) - 48)
    }
}

/// Whether `s` is one or more ASCII digits.
pub open spec fn all_digits(s: Seq<char>) -> bool {
    s.len() > 0 && forall|k: int| 0 <= k < s.len() ==> is_digit(#[trigger] s[k])
}

/// The magnitude a signed or unsigned decimal text denotes: the digits after an
/// optional sign (`-` only when `signed`), with whether it is negative; `None` if the
/// text is not of that form.
pub open spec fn decimal(s: Seq<char>, signed: bool) -> Option<(bool, int)> {
    if s.len() > 0 && s[0] == '+' {
        if all_digits(s.drop_first()) { Some((false, digits_value(s.drop_first(), s.len() - 1))) } else { None }
    } else if signed && s.len() > 0 && s[0] == '-' {
        if all_digits(s.drop_first()) { Some((true, digits_value(s.drop_first(), s.len() - 1))) } else { None }
    } else {
        if all_digits(s) { Some((false, digits_value(s, s.len() as int))) } else { None }
    }
}

/// The integer a decimal text denotes within `[lo, hi]`, as `str::parse` reads it:
/// `None` if the text is malformed or the value out of range.
pub open spec fn parse_int(s: Seq<char>, signed: bool, lo: int, hi: int) -> Option<int> {
    match decimal(s, signed) {
        Some((neg, v)) => {
            let x = if neg { -v } else { v };
            if lo <= x <= hi { Some(x) } else { None }
        },
        None => None,
    }
}

proof fn lemma_digits_value_mono(s: Seq<char>, n: int)
    requires
        0 <= n <= s.len(),
        forall|k: int| 0 <= k < n ==> is_digit(#[trigger] s[k]),
    ensures
        digits_value(s, n) >= 0,
    decreases n,
{
    if n > 0 {
        lemma_digits_value_mono(s, n - 1);
    }
}

/// Reads the digits of `s` from `start`; `None` if there are none, a character is
/// not a digit, or the value exceeds `limit`.
fn read_digits(s: &str, start: usize, limit: u64) -> (r: Option<u64>)
    requires
        start <= s@.len(),
        limit >= 9,
    ensures
        r matches Some(v) ==> all_digits(s@.skip(start as int)) && v == digits_value(s@.skip(start as int), s@.len() - start)
            && v <= limit,
        r is None ==> !all_digits(s@.skip(start as int)) || digits_value(s@.skip(start as int), s@.len() - start) > limit,
{
    let n = s.unicode_len();
    let ghost t = s@.skip(start as int);
    if start >= n {
        return None;
    }
    let mut v: u64 = 0;
    let mut i: usize = start;
    while i < n
        invariant
            n == s@.len(),
            start < n,
            start <= i <= n,
            t == s@.skip(start as int),
            forall|k: int| 0 <= k < i - start ==> is_digit(#[trigger] t[k]),
            v == digits_value(t, i - start),
            v <= limit,
            limit >= 9,
        decreases n - i,
    {
        let c = s.get_char(i);
        assert(t[i - start] == c);
        if !('0' <= c && c <= '9') {
            return None;
        }
        let d = (c as u32 - 48) as u64;
        if v > (limit - d) / 10 {
            proof {
                lemma_digits_value_mono(t, i - start);
                assert(digits_value(t, i - start + 1) == v * 10 + d);
                assert(v * 10 + d > limit) by (nonlinear_arith)
                    requires
                        v > (limit - d) / 10,
                        d <= 9,
                        d <= limit || true,
                ;
                lemma_digits_value_grows(t, i - start + 1, n - start);
            }
            return None;
        }
        proof {
            assert(v * 10 + d <= limit) by (nonlinear_arith)
                requires
                    v <= (limit - d) / 10,
                    d <= 9,
            ;
        }
        v = v * 10 + d;
        i += 1;
    }
    Some(v)
}

proof fn lemma_digits_value_grows(s: Seq<char>, m: int, n: int)
    requires
        0 <= m <= n <= s.len(),
        forall|k: int| 0 <= k < m ==> is_digit(#[trigger] s[k]),
    ensures
        !all_digits(s.subrange(0, n)) || digits_value(s, n) >= digits_value(s, m),
    decreases n - m,
{
    if m < n {
        if forall|k: int| 0 <= k < m + 1 ==> is_digit(#[trigger] s[k]) {
            lemma_digits_value_grows(s, m + 1, n);
            lemma_digits_value_mono(s, m);
        } else {
            assert(!is_digit(s[m]));
            assert(s.subrange(0, n)[m] == s[m]);
        }
    }
}

/// `str::parse::<u64>`.
pub fn parse_u64(s: &str) -> (r: Option<u64>)
    ensures
        r matches Some(v) ==> parse_int(s@, false, 0, u64::MAX as int) == Some(v as int),
        r is None ==> parse_int(s@, false, 0, u64::MAX as int) is None,
{
    let n = s.unicode_len();
    let start: usize = if n > 0 && s.get_char(0) == '+' { 1 } else { 0 };
    let r = read_digits(s, start, u64::MAX);
    proof {
        if start == 1 {
            assert(s@.skip(1) =~= s@.drop_first());
        } else {
            assert(s@.skip(0) =~= s@);
        }
    }
    r
}

/// An unsigned integer up to `max` (`str::parse` for an unsigned type whose largest
/// value is `max`).
pub fn parse_unsigned(s: &str, max: u64) -> (r: Option<u64>)
    requires
        max >= 9,
    ensures
        r matches Some(v) ==> parse_int(s@, false, 0, max as int) == Some(v as int),
        r is None ==> parse_int(s@, false, 0, max as int) is None,
{
    let n = s.unicode_len();
    let start: usize = if n > 0 && s.get_char(0) == '+' { 1 } else { 0 };
    let r = read_digits(s, start, max);
    proof {
        if start == 1 {
            assert(s@.skip(1) =~= s@.drop_first());
        } else {
            assert(s@.skip(0) =~= s@);
        }
        if let Some(v) = r {
            lemma_digits_value_mono(s@.skip(start as int), s@.len() - start);
        }
    }
    r
}

/// `str::parse::<i32>`.
pub fn parse_i32(s: &str) -> (r: Option<i32>)
    ensures
        r matches Some(v) ==> parse_int(s@, true, i32::MIN as int, i32::MAX as int) == Some(v as int),
        r is None ==> parse_int(s@, true, i32::MIN as int, i32::MAX as int) is None,
{
    let n = s.unicode_len();
    if n > 0 && s.get_char(0) == '-' {
        let r = read_digits(s, 1, 2147483648);
        proof {
            assert(s@.skip(1) =~= s@.drop_first());
        }
        match r {
            Some(v) => {
                proof {
                    lemma_digits_value_mono(s@.skip(1), s@.len() - 1);
                }
                if v == 2147483648 { Some(i32::MIN) } else { Some(-(v as i32)) }
            },
            None => None,
        }
    } else {
        let start: usize = if n > 0 && s.get_char(0) == '+' { 1 } else { 0 };
        let r = read_digits(s, start, 2147483647);
        proof {
            if start == 1 {
                assert(s@.skip(1) =~= s@.drop_first());
            } else {
                assert(s@.skip(0) =~= s@);
            }
        }
        match r {
            Some(v) => {
                proof {
                    lemma_digits_value_mono(s@.skip(start as int), s@.len() - start);
                }
                Some(v as i32)
            },
            None => None,
        }
    }
}

/// Whether `pat` occurs in `s` at position `k`.
pub open spec fn occurs_at(s: Seq<char>, pat: Seq<char>, k: int) -> bool {
    0 <= k && k + pat.len() <= s.len() && s.subrange(k, k + pat.len()) == pat
}

/// Whether `s` matches `pat` from position `k` on (a loop over the pattern).
fn matches_at(s: &str, pat: &str, k: usize) -> (r: bool)
    requires
        k + pat@.len() <= s@.len(),
    ensures
        r == occurs_at(s@, pat@, k as int),
{
    let n = s.unicode_len();
    let m = pat.unicode_len();
    let mut i: usize = 0;
    while i < m
        invariant
            m == pat@.len(),
            n == s@.len(),
            k + m <= s@.len(),
            i <= m,
            forall|j: int| 0 <= j < i ==> s@[k + j] == pat@[j],
        decreases m - i,
    {
        if s.get_char(k + i) != pat.get_char(i) {
            proof {
                assert(s@.subrange(k as int, k + m)[i as int] != pat@[i as int]);
            }
            return false;
        }
        i += 1;
    }
    assert(s@.subrange(k as int, k + m) =~= pat@);
    true
}

/// `str::starts_with`.
pub fn starts_with(s: &str, pat: &str) -> (r: bool)
    ensures
        r == occurs_at(s@, pat@, 0),
{
    if pat.unicode_len() > s.unicode_len() {
        return false;
    }
    matches_at(s, pat, 0)
}

/// `str::contains` for a text pattern.
pub fn contains_text(s: &str, pat: &str) -> (r: bool)
    ensures
        r == exists|k: int| occurs_at(s@, pat@, k),
{
    let n = s.unicode_len();
    let m = pat.unicode_len();
    if m > n {
        return false;
    }
    if m == 0 {
        assert(s@.subrange(0, 0) =~= pat@);
        assert(occurs_at(s@, pat@, 0));
        return true;
    }
    let mut k: usize = 0;
    while k <= n - m
        invariant
            n == s@.len(),
            m == pat@.len(),
            1 <= m <= n,
            k <= n - m + 1,
            forall|j: int| 0 <= j < k ==> !occurs_at(s@, pat@, j),
        decreases n - m + 1 - k,
    {
        if matches_at(s, pat, k) {
            return true;
        }
        k += 1;
    }
    proof {
        assert forall|j: int| !occurs_at(s@, pat@, j) by {
            if 0 <= j < k {
            }
        }
    }
    false
}

// ---------------------------------------------------------------------------
// Splitting at a separator
// ---------------------------------------------------------------------------

/// Index of the first `c` in `s` at or after `i`, or the length if there is none.
pub open spec fn find_char(s: Seq<char>, c: char, i: int) -> int
    decreases s.len() - i,
{
    if i >= s.len() || s[i] == c {
        i
    } else {
        find_char(s, c, i + 1)
    }
}

/// `find_char` lies between `i` and the end, skips no `c`, and stops on one.
pub proof fn lemma_find_char(s: Seq<char>, c: char, i: int)
    requires
        0 <= i <= s.len(),
    ensures
        i <= find_char(s, c, i) <= s.len(),
        forall|k: int| i <= k < find_char(s, c, i) ==> #[trigger] s[k] != c,
        find_char(s, c, i) < s.len() ==> s[find_char(s, c, i)] == c,
    decreases s.len() - i,
{
    if i < s.len() && s[i] != c {
        lemma_find_char(s, c, i + 1);
    }
}

/// The pieces of `s` from `i` on between occurrences of `c`, at most `n` of them, the
/// last holding the rest of the text (`str::splitn`).
pub open spec fn pieces(s: Seq<char>, c: char, i: int, n: int) -> Seq<Seq<char>>
    decreases s.len() - i,
{
    let j = find_char(s, c, i);
    if i < 0 || i > s.len() || n <= 1 || j >= s.len() || j < i {
        seq![s.subrange(i, s.len() as int)]
    } else {
        seq![s.subrange(i, j)] + pieces(s, c, j + 1, n - 1)
    }
}

/// Splits `input` at `sep` into at most `n` pieces, the last holding the rest.
pub fn split_n(input: &str, sep: char, n: usize) -> (r: Vec<String>)
    requires
        n >= 1,
    ensures
        views(r@) == pieces(input@, sep, 0, n as int),
{
    let len = input.unicode_len();
    let mut out: Vec<String> = Vec::new();
    let mut i: usize = 0;
    proof {
        assert(views(out@) + pieces(input@, sep, 0, n as int) =~= pieces(input@, sep, 0, n as int));
    }
    loop
        invariant
            len == input@.len(),
            i <= len,
            out@.len() < n,
            views(out@) + pieces(input@, sep, i as int, n - out@.len()) == pieces(input@, sep, 0, n as int),
        decreases len - i,
    {
        let mut j = i;
        proof {
            lemma_find_char(input@, sep, i as int);
        }
        while j < len
            invariant
                len == input@.len(),
                i <= j <= len,
                j <= find_char(input@, sep, i as int),
                find_char(input@, sep, j as int) == find_char(input@, sep, i as int),
            ensures
                j == find_char(input@, sep, i as int),
            decreases len - j,
        {
            if input.get_char(j) == sep {
                break;
            }
            proof {
                lemma_find_char(input@, sep, j + 1);
            }
            j += 1;
        }
        if out.len() + 1 >= n || j >= len {
            let last = input.substring_char(i, len).to_owned();
            proof {
                assert(views(out@.push(last)) =~= views(out@).push(last@));
                assert(pieces(input@, sep, i as int, n - out@.len()) =~= seq![input@.subrange(i as int, len as int)]);
                assert(views(out@) + seq![last@] =~= views(out@).push(last@));
            }
            out.push(last);
            return out;
        }
        let piece = input.substring_char(i, j).to_owned();
        proof {
            assert(views(out@.push(piece)) =~= views(out@).push(piece@));
            assert(views(out@).push(piece@) + pieces(input@, sep, j + 1, n - out@.len() - 1)
                =~= views(out@) + (seq![input@.subrange(i as int, j as int)] + pieces(input@, sep, j + 1, n - out@.len() - 1)));
        }
        out.push(piece);
        i = j + 1;
    }
}

/// Index of the `n`-th `c` in `s` at or after `i` (counting from one), or the length
/// if there are fewer.
pub open spec fn nth_find(s: Seq<char>, c: char, i: int, n: nat) -> int
    decreases n,
{
    let j = find_char(s, c, i);
    if n <= 1 || j >= s.len() {
        j
    } else {
        nth_find(s, c, j + 1, (n - 1) as nat)
    }
}

/// The text of `input` before its `n`-th `sep` (all of it if it has fewer).
pub fn prefix_before_nth(input: &str, sep: char, n: usize) -> (r: String)
    requires
        n >= 1,
    ensures
        r@ == input@.subrange(0, nth_find(input@, sep, 0, n as nat)),
{
    let len = input.unicode_len();
    let mut start: usize = 0;
    let mut k: usize = 0;
    loop
        invariant
            len == input@.len(),
            start <= len,
            k < n,
            nth_find(input@, sep, 0, n as nat) == nth_find(input@, sep, start as int, (n - k) as nat),
        decreases len - start,
    {
        let mut j = start;
        proof {
            lemma_find_char(input@, sep, start as int);
        }
        while j < len
            invariant
                len == input@.len(),
                start <= j <= len,
                j <= find_char(input@, sep, start as int),
                find_char(input@, sep, j as int) == find_char(input@, sep, start as int),
            ensures
                j == find_char(input@, sep, start as int),
            decreases len - j,
        {
            if input.get_char(j) == sep {
                break;
            }
            proof {
                lemma_find_char(input@, sep, j + 1);
            }
            j += 1;
        }
        if k + 1 >= n || j >= len {
            return input.substring_char(0, j).to_owned();
        }
        start = j + 1;
        k += 1;
    }
}

// ---------------------------------------------------------------------------
// Real numbers
// ---------------------------------------------------------------------------

/// Index of the first non-digit of `s` at or after `i`, or the length.
pub open spec fn digit_run(s: Seq<char>, i: int) -> int
    decreases s.len() - i,
{
    if i < 0 || i >= s.len() || !is_digit(s[i]) {
        i
    } else {
        digit_run(s, i + 1)
    }
}

/// Whether `s` from `i` on is empty or an exponent: `e` or `E`, an optional sign, and
/// one digit or more.
pub open spec fn exponent_from(s: Seq<char>, i: int) -> bool {
    ||| i == s.len()
    ||| {
        &&& 0 <= i < s.len()
        &&& (s[i] == 'e' || s[i] == 'E')
        &&& {
            let j = if i + 1 < s.len() && (s[i + 1] == '+' || s[i + 1] == '-') { i + 2 } else { i + 1 };
            j < s.len() && digit_run(s, j) == s.len()
        }
    }
}

/// Whether `s` from `i` on is a decimal number: digits, a point, digits (either run
/// may be empty, but not both; the point may be left out when the first run is not),
/// then an optional exponent.
pub open spec fn number_from(s: Seq<char>, i: int) -> bool {
    let a = digit_run(s, i);
    if a < s.len() && s[a] == '.' {
        let b = digit_run(s, a + 1);
        (a > i || b > a + 1) && exponent_from(s, b)
    } else {
        a > i && exponent_from(s, a)
    }
}

/// Whether `s` is the text of a real number as `f32::from_str` reads it: an optional
/// sign, then `inf`, `infinity` or `nan` in any ASCII case, or a decimal number.
pub open spec fn is_real_text(s: Seq<char>) -> bool {
    let i = if s.len() > 0 && (s[0] == '+' || s[0] == '-') { 1int } else { 0int };
    let t = s.subrange(i, s.len() as int);
    ||| eq_ignore_case(t, "inf"@)
    ||| eq_ignore_case(t, "infinity"@)
    ||| eq_ignore_case(t, "nan"@)
    ||| number_from(s, i)
}

fn digits_from(s: &str, i: usize) -> (r: usize)
    requires
        i <= s@.len(),
    ensures
        r == digit_run(s@, i as int),
        i <= r <= s@.len(),
{
    let n = s.unicode_len();
    let mut j = i;
    while j < n
        invariant
            n == s@.len(),
            i <= j <= n,
            digit_run(s@, j as int) == digit_run(s@, i as int),
        decreases n - j,
    {
        let c = s.get_char(j);
        if !('0' <= c && c <= '9') {
            return j;
        }
        j += 1;
    }
    j
}

fn exponent_ok(s: &str, i: usize) -> (r: bool)
    requires
        i <= s@.len(),
    ensures
        r == exponent_from(s@, i as int),
{
    let n = s.unicode_len();
    if i == n {
        return true;
    }
    let c = s.get_char(i);
    if c != 'e' && c != 'E' {
        return false;
    }
    let j: usize = if i + 1 < n && (s.get_char(i + 1) == '+' || s.get_char(i + 1) == '-') { i + 2 } else { i + 1 };
    j < n && digits_from(s, j) == n
}

/// Whether a text is a real number as `f32::from_str` reads it (see `is_real_text`).
pub fn real_text(s: &str) -> (r: bool)
    ensures
        r == is_real_text(s@),
{
    let n = s.unicode_len();
    let i: usize = if n > 0 && (s.get_char(0) == '+' || s.get_char(0) == '-') { 1 } else { 0 };
    let t = s.substring_char(i, n);
    if eq_text_ignore_case(t, "inf") || eq_text_ignore_case(t, "infinity") || eq_text_ignore_case(t, "nan") {
        return true;
    }
    let a = digits_from(s, i);
    if a < n && s.get_char(a) == '.' {
        let b = digits_from(s, a + 1);
        (a > i || b > a + 1) && exponent_ok(s, b)
    } else {
        a > i && exponent_ok(s, a)
    }
}

// ---------------------------------------------------------------------------
// Trimming and hexadecimal numbers
// ---------------------------------------------------------------------------

/// Index of the first non-whitespace character of `s` at or after `i`, or the length.
pub open spec fn skip_ws(s: Seq<char>, i: int) -> int
    decreases s.len() - i,
{
    if i >= s.len() || !is_ws(s[i]) {
        i
    } else {
        skip_ws(s, i + 1)
    }
}

/// End of `s[lo..j]` once trailing whitespace is dropped.
pub open spec fn trim_end(s: Seq<char>, lo: int, j: int) -> int
    decreases j - lo,
{
    if j <= lo || !is_ws(s[j - 1]) {
        j
    } else {
        trim_end(s, lo, j - 1)
    }
}

/// `s` without leading and trailing whitespace (`str::trim`).
pub open spec fn trimmed(s: Seq<char>) -> Seq<char> {
    let lo = skip_ws(s, 0);
    s.subrange(lo, trim_end(s, lo, s.len() as int))
}

proof fn lemma_skip_ws(s: Seq<char>, i: int)
    requires
        0 <= i <= s.len(),
    ensures
        i <= skip_ws(s, i) <= s.len(),
    decreases s.len() - i,
{
    if i < s.len() && is_ws(s[i]) {
        lemma_skip_ws(s, i + 1);
    }
}

proof fn lemma_trim_end(s: Seq<char>, lo: int, j: int)
    requires
        0 <= lo <= j <= s.len(),
    ensures
        lo <= trim_end(s, lo, j) <= j,
    decreases j - lo,
{
    if j > lo && is_ws(s[j - 1]) {
        lemma_trim_end(s, lo, j - 1);
    }
}

/// `str::trim`.
pub fn trim(input: &str) -> (r: String)
    ensures
        r@ == trimmed(input@),
{
    let n = input.unicode_len();
    let mut lo: usize = 0;
    proof {
        lemma_skip_ws(input@, 0);
    }
    while lo < n && is_whitespace(input.get_char(lo))
        invariant
            n == input@.len(),
            lo <= skip_ws(input@, 0) <= n,
            skip_ws(input@, lo as int) == skip_ws(input@, 0),
        decreases n - lo,
    {
        proof {
            lemma_skip_ws(input@, lo + 1);
        }
        lo += 1;
    }
    let mut hi: usize = n;
    proof {
        lemma_trim_end(input@, lo as int, n as int);
    }
    while hi > lo && is_whitespace(input.get_char(hi - 1))
        invariant
            n == input@.len(),
            lo == skip_ws(input@, 0),
            lo <= hi <= n,
            trim_end(input@, lo as int, hi as int) == trim_end(input@, lo as int, n as int),
        decreases hi - lo,
    {
        hi -= 1;
    }
    input.substring_char(lo, hi).to_owned()
}

/// Value of a hexadecimal digit (either case), or -1.
pub open spec fn hex_digit(c: char) -> int {
    if '0' <= c && c <= '9' {
        (c as u32) - 48
    } else if 'a' <= c && c <= 'f' {
        (c as u32) - 87
    } else if 'A' <= c && c <= 'F' {
        (c as u32) - 55
    } else {
        -1
    }
}

/// Value of the hexadecimal digits `s[0 .. n]`.
pub open spec fn hex_value(s: Seq<char>, n: int) -> int
    decreases n,
{
    if n <= 0 {
        0
    } else {
        hex_value(s, n - 1) * 16 + hex_digit(s[n - 1])
    }
}

/// Whether `s` is a non-empty run of hexadecimal digits.
pub open spec fn all_hex(s: Seq<char>) -> bool {
    s.len() > 0 && forall|k: int| 0 <= k < s.len() ==> hex_digit(#[trigger] s[k]) >= 0
}

/// `u64::from_str_radix(s, 16)`: an optional `+`, then hexadecimal digits whose
/// value fits in a `u64`.
pub open spec fn parse_hex(s: Seq<char>) -> Option<int> {
    let b = if s.len() > 0 && s[0] == '+' { s.drop_first() } else { s };
    if all_hex(b) && hex_value(b, b.len() as int) <= u64::MAX {
        Some(hex_value(b, b.len() as int))
    } else {
        None
    }
}

proof fn lemma_hex_value_mono(s: Seq<char>, n: int)
    requires
        0 <= n <= s.len(),
        forall|k: int| 0 <= k < n ==> hex_digit(#[trigger] s[k]) >= 0,
    ensures
        hex_value(s, n) >= 0,
    decreases n,
{
    if n > 0 {
        lemma_hex_value_mono(s, n - 1);
    }
}

proof fn lemma_hex_value_grows(s: Seq<char>, m: int, n: int)
    requires
        0 <= m <= n <= s.len(),
        forall|k: int| 0 <= k < m ==> hex_digit(#[trigger] s[k]) >= 0,
    ensures
        !all_hex(s.subrange(0, n)) || hex_value(s, n) >= hex_value(s, m),
    decreases n - m,
{
    if m < n {
        if forall|k: int| 0 <= k < m + 1 ==> hex_digit(#[trigger] s[k]) >= 0 {
            lemma_hex_value_grows(s, m + 1, n);
            lemma_hex_value_mono(s, m);
        } else {
            assert(hex_digit(s[m]) < 0);
            assert(s.subrange(0, n)[m] == s[m]);
        }
    }
}

fn hex_digit_of(c: char) -> (r: Option<u64>)
    ensures
        r matches Some(d) ==> d == hex_digit(c) && d < 16,
        r is None ==> hex_digit(c) < 0,
{
    if '0' <= c && c <= '9' {
        Some((c as u32 - 48) as u64)
    } else if 'a' <= c && c <= 'f' {
        Some((c as u32 - 87) as u64)
    } else if 'A' <= c && c <= 'F' {
        Some((c as u32 - 55) as u64)
    } else {
        None
    }
}

/// `u64::from_str_radix(s, 16)` (see `parse_hex`).
pub fn parse_hex_u64(s: &str) -> (r: Option<u64>)
    ensures
        r matches Some(v) ==> parse_hex(s@) == Some(v as int),
        r is None ==> parse_hex(s@) is None,
{
    let n = s.unicode_len();
    let start: usize = if n > 0 && s.get_char(0) == '+' { 1 } else { 0 };
    let ghost t = s@.skip(start as int);
    proof {
        if start == 1 {
            assert(t =~= s@.drop_first());
        } else {
            assert(t =~= s@);
        }
    }
    if start >= n {
        return None;
    }
    let mut v: u64 = 0;
    let mut i: usize = start;
    while i < n
        invariant
            n == s@.len(),
            start < n,
            start <= i <= n,
            t == s@.skip(start as int),
            t == (if s@.len() > 0 && s@[0] == '+' { s@.drop_first() } else { s@ }),
            forall|k: int| 0 <= k < i - start ==> hex_digit(#[trigger] t[k]) >= 0,
            v == hex_value(t, i - start),
        decreases n - i,
    {
        let c = s.get_char(i);
        assert(t[i - start] == c);
        let d = match hex_digit_of(c) {
            Some(d) => d,
            None => {
                proof {
                    assert(hex_digit(t[i - start]) < 0);
                    assert(!all_hex(t));
                }
                return None;
            },
        };
        if v > (u64::MAX - d) / 16 {
            proof {
                lemma_hex_value_mono(t, i - start);
                assert(hex_value(t, i - start + 1) == v * 16 + d);
                assert(v * 16 + d > u64::MAX) by (nonlinear_arith)
                    requires
                        v > (u64::MAX - d) / 16,
                        d <= 15,
                ;
                lemma_hex_value_grows(t, i - start + 1, n - start);
                assert(t.subrange(0, n - start) =~= t);
                assert(!all_hex(t) || hex_value(t, t.len() as int) > u64::MAX);
            }
            return None;
        }
        proof {
            assert(v * 16 + d <= u64::MAX) by (nonlinear_arith)
                requires
                    v <= (u64::MAX - d) / 16,
                    d <= 15,
            ;
        }
        v = v * 16 + d;
        i += 1;
    }
    Some(v)
}

// ---------------------------------------------------------------------------
// Writing numbers
// ---------------------------------------------------------------------------

/// The character of a digit (`0`-`9`, then `a`-`f`).
pub open spec fn digit_char(d: int) -> char {
    if d == 0 {
        '0'
    } else if d == 1 {
        '1'
    } else if d == 2 {
        '2'
    } else if d == 3 {
        '3'
    } else if d == 4 {
        '4'
    } else if d == 5 {
        '5'
    } else if d == 6 {
        '6'
    } else if d == 7 {
        '7'
    } else if d == 8 {
        '8'
    } else if d == 9 {
        '9'
    } else if d == 10 {
        'a'
    } else if d == 11 {
        'b'
    } else if d == 12 {
        'c'
    } else if d == 13 {
        'd'
    } else if d == 14 {
        'e'
    } else {
        'f'
    }
}

/// Decimal digits of `n`, without leading zeros (`0` for zero).
pub open spec fn dec(n: nat) -> Seq<char>
    decreases n,
{
    if n < 10 {
        seq![digit_char(n as int)]
    } else {
        dec(n / 10) + seq![digit_char((n % 10) as int)]
    }
}

/// The last `k` hexadecimal digits of `x`, most significant first.
pub open spec fn hex(x: nat, k: nat) -> Seq<char>
    decreases k,
{
    if k == 0 {
        Seq::empty()
    } else {
        hex(x / 16, (k - 1) as nat) + seq![digit_char((x % 16) as int)]
    }
}

/// A one-character string for a digit below 16.
pub fn digit_text(d: u64) -> (r: &'static str)
    requires
        d < 16,
    ensures
        r@ == seq![digit_char(d as int)],
{
    match d {
        0 => {
            proof {
                reveal_strlit("0");
                assert("0"@ =~= seq!['0']);
            }
            "0"
        },
        1 => {
            proof {
                reveal_strlit("1");
                assert("1"@ =~= seq!['1']);
            }
            "1"
        },
        2 => {
            proof {
                reveal_strlit("2");
                assert("2"@ =~= seq!['2']);
            }
            "2"
        },
        3 => {
            proof {
                reveal_strlit("3");
                assert("3"@ =~= seq!['3']);
            }
            "3"
        },
        4 => {
            proof {
                reveal_strlit("4");
                assert("4"@ =~= seq!['4']);
            }
            "4"
        },
        5 => {
            proof {
                reveal_strlit("5");
                assert("5"@ =~= seq!['5']);
            }
            "5"
        },
        6 => {
            proof {
                reveal_strlit("6");
                assert("6"@ =~= seq!['6']);
            }
            "6"
        },
        7 => {
            proof {
                reveal_strlit("7");
                assert("7"@ =~= seq!['7']);
            }
            "7"
        },
        8 => {
            proof {
                reveal_strlit("8");
                assert("8"@ =~= seq!['8']);
            }
            "8"
        },
        9 => {
            proof {
                reveal_strlit("9");
                assert("9"@ =~= seq!['9']);
            }
            "9"
        },
        10 => {
            proof {
                reveal_strlit("a");
                assert("a"@ =~= seq!['a']);
            }
            "a"
        },
        11 => {
            proof {
                reveal_strlit("b");
                assert("b"@ =~= seq!['b']);
            }
            "b"
        },
        12 => {
            proof {
                reveal_strlit("c");
                assert("c"@ =~= seq!['c']);
            }
            "c"
        },
        13 => {
            proof {
                reveal_strlit("d");
                assert("d"@ =~= seq!['d']);
            }
            "d"
        },
        14 => {
            proof {
                reveal_strlit("e");
                assert("e"@ =~= seq!['e']);
            }
            "e"
        },
        _ => {
            proof {
                reveal_strlit("f");
                assert("f"@ =~= seq!['f']);
            }
            "f"
        },
    }
}

/// Appends the decimal digits of `n`.
pub fn push_decimal(s: &mut String, n: u64)
    ensures
        final(s)@ == old(s)@ + dec(n as nat),
    decreases n,
{
    if n < 10 {
        s.append(digit_text(n));
    } else {
        push_decimal(s, n / 10);
        s.append(digit_text(n % 10));
        proof {
            assert(old(s)@ + dec((n / 10) as nat) + seq![digit_char((n % 10) as int)] =~= old(s)@ + dec(n as nat));
        }
    }
}

/// Appends the last `k` hexadecimal digits of `x`.
pub fn push_hex(s: &mut String, x: u64, k: u32)
    ensures
        final(s)@ == old(s)@ + hex(x as nat, k as nat),
    decreases k,
{
    if k > 0 {
        push_hex(s, x / 16, k - 1);
        s.append(digit_text(x % 16));
        proof {
            assert(old(s)@ + hex((x / 16) as nat, (k - 1) as nat) + seq![digit_char((x % 16) as int)]
                =~= old(s)@ + hex(x as nat, k as nat));
        }
    }
}

/// Decimal text of a signed integer (`-` then the digits of its magnitude).
pub open spec fn signed_dec(x: int) -> Seq<char> {
    if x < 0 { seq!['-'] + dec((-x) as nat) } else { dec(x as nat) }
}

/// Appends the decimal text of an `i32`.
pub fn push_signed(s: &mut String, x: i32)
    ensures
        final(s)@ == old(s)@ + signed_dec(x as int),
{
    if x < 0 {
        s.append("-");
        proof {
            reveal_strlit("-");
        }
        let m: u64 = if x == i32::MIN { 2147483648 } else { (-x) as u64 };
        push_decimal(s, m);
        proof {
            assert(old(s)@ + seq!['-'] + dec(m as nat) =~= old(s)@ + signed_dec(x as int));
        }
    } else {
        push_decimal(s, x as u64);
    }
}

// ---------------------------------------------------------------------------
// Reading back what is written
// ---------------------------------------------------------------------------

/// Fields joined by `sep`.
pub open spec fn join_with(fs: Seq<Seq<char>>, sep: char) -> Seq<char>
    decreases fs.len(),
{
    if fs.len() <= 1 {
        if fs.len() == 1 { fs[0] } else { Seq::empty() }
    } else {
        fs[0] + seq![sep] + join_with(fs.drop_first(), sep)
    }
}

proof fn lemma_find_char_shift(p: Seq<char>, s: Seq<char>, c: char, i: int)
    requires
        0 <= i <= s.len(),
    ensures
        find_char(p + s, c, p.len() + i) == p.len() + find_char(s, c, i),
    decreases s.len() - i,
{
    if i < s.len() {
        assert((p + s)[p.len() + i] == s[i]);
        if s[i] != c {
            lemma_find_char_shift(p, s, c, i + 1);
        }
    }
}

proof fn lemma_pieces_shift(p: Seq<char>, s: Seq<char>, c: char, i: int, n: int)
    requires
        0 <= i <= s.len(),
    ensures
        pieces(p + s, c, p.len() + i, n) == pieces(s, c, i, n),
    decreases s.len() - i,
{
    lemma_find_char_shift(p, s, c, i);
    lemma_find_char(s, c, i);
    let j = find_char(s, c, i);
    assert((p + s).subrange(p.len() + i, (p + s).len() as int) =~= s.subrange(i, s.len() as int));
    if n > 1 && j < s.len() {
        assert((p + s).subrange(p.len() + i, p.len() + j) =~= s.subrange(i, j));
        lemma_pieces_shift(p, s, c, j + 1, n - 1);
    }
}

proof fn lemma_find_char_first(x: Seq<char>, rest: Seq<char>, c: char)
    requires
        !x.contains(c),
    ensures
        find_char(x + seq![c] + rest, c, 0) == x.len(),
{
    let s = x + seq![c] + rest;
    assert forall|k: int| 0 <= k <= x.len() implies find_char(s, c, k) == x.len() by {
        lemma_find_char_from(x, rest, c, k);
    }
}

proof fn lemma_find_char_from(x: Seq<char>, rest: Seq<char>, c: char, k: int)
    requires
        !x.contains(c),
        0 <= k <= x.len(),
    ensures
        find_char(x + seq![c] + rest, c, k) == x.len(),
    decreases x.len() - k,
{
    let s = x + seq![c] + rest;
    if k < x.len() {
        assert(s[k] == x[k]);
        assert(x[k] != c);
        lemma_find_char_from(x, rest, c, k + 1);
    } else {
        assert(s[k] == c);
    }
}

/// Splitting fields joined by `sep` gives the fields back, when no field but the
/// last holds `sep`.
pub proof fn lemma_pieces_join(fs: Seq<Seq<char>>, sep: char)
    requires
        fs.len() >= 1,
        forall|k: int| 0 <= k < fs.len() - 1 ==> !(#[trigger] fs[k]).contains(sep),
    ensures
        pieces(join_with(fs, sep), sep, 0, fs.len() as int) == fs,
    decreases fs.len(),
{
    let s = join_with(fs, sep);
    if fs.len() == 1 {
        assert(s.subrange(0, s.len() as int) =~= s);
        assert(pieces(s, sep, 0, 1) =~= fs);
    } else {
        let x = fs[0];
        let rest = join_with(fs.drop_first(), sep);
        assert(s == x + seq![sep] + rest);
        lemma_find_char_first(x, rest, sep);
        assert(s.subrange(0, x.len() as int) =~= x);
        assert forall|k: int| 0 <= k < fs.drop_first().len() - 1 implies !(#[trigger] fs.drop_first()[k]).contains(sep) by {
            assert(fs.drop_first()[k] == fs[k + 1]);
        }
        lemma_pieces_join(fs.drop_first(), sep);
        lemma_pieces_shift(x + seq![sep], rest, sep, 0, fs.len() - 1 as int);
        assert(x + seq![sep] + rest == (x + seq![sep]) + rest);
        assert((x + seq![sep]).len() == x.len() + 1);
        assert(pieces(s, sep, 0, fs.len() as int) == seq![x] + pieces(s, sep, x.len() + 1 as int, fs.len() - 1));
        assert(seq![x] + fs.drop_first() =~= fs);
    }
}

proof fn lemma_digit_char_value(d: int)
    requires
        0 <= d < 16,
    ensures
        hex_digit(digit_char(d)) == d,
        d < 10 ==> is_digit(digit_char(d)) && (digit_char(d) as u32) - 48 == d,
        !is_ws(digit_char(d)),
        digit_char(d) != '+',
        digit_char(d) != '-',
        digit_char(d) != '|',
{
}

proof fn lemma_digits_value_prefix(s: Seq<char>, t: Seq<char>, k: int)
    requires
        0 <= k <= s.len(),
    ensures
        digits_value(s + t, k) == digits_value(s, k),
    decreases k,
{
    if k > 0 {
        lemma_digits_value_prefix(s, t, k - 1);
        assert((s + t)[k - 1] == s[k - 1]);
    }
}

/// The decimal text of `n`: digits only, whose value is `n`.
pub proof fn lemma_dec_value(n: nat)
    ensures
        dec(n).len() >= 1,
        all_digits(dec(n)),
        digits_value(dec(n), dec(n).len() as int) == n,
        !dec(n).contains('|'),
    decreases n,
{
    if n < 10 {
        lemma_digit_char_value(n as int);
        let c = digit_char(n as int);
        assert(dec(n) == seq![c]);
        assert(digits_value(seq![c], 1) == digits_value(seq![c], 0) * 10 + ((seq![c][0] as u32) - 48));
    } else {
        lemma_dec_value(n / 10);
        lemma_digit_char_value((n % 10) as int);
        let a = dec(n / 10);
        let t = seq![digit_char((n % 10) as int)];
        assert(dec(n) == a + t);
        lemma_digits_value_prefix(a, t, a.len() as int);
        assert((a + t)[a.len() as int] == digit_char((n % 10) as int));
        assert(digits_value(a + t, a.len() + 1 as int) == digits_value(a + t, a.len() as int) * 10
            + (((a + t)[a.len() as int] as u32) - 48));
        assert(n == (n / 10) * 10 + n % 10);
        assert forall|k: int| 0 <= k < (a + t).len() implies is_digit(#[trigger] (a + t)[k]) by {
            if k < a.len() {
                assert((a + t)[k] == a[k]);
            }
        }
        assert forall|k: int| 0 <= k < (a + t).len() implies (#[trigger] (a + t)[k]) != '|' by {
            if k < a.len() {
                assert((a + t)[k] == a[k]);
                assert(!a.contains('|'));
            }
        }
    }
}

/// The decimal text of `n` reads back as `n` (in any range holding it).
pub proof fn lemma_dec_parse(n: nat, hi: int)
    requires
        n <= hi,
    ensures
        parse_int(dec(n), false, 0, hi) == Some(n as int),
        parse_int(dec(n), true, i32::MIN as int, hi) == Some(n as int),
{
    lemma_dec_value(n);
    assert(is_digit(dec(n)[0]));
}

/// The decimal text of a signed number reads back as that number.
pub proof fn lemma_signed_parse(x: int)
    requires
        i32::MIN <= x <= i32::MAX,
    ensures
        parse_int(signed_dec(x), true, i32::MIN as int, i32::MAX as int) == Some(x),
        !signed_dec(x).contains('|'),
{
    if x < 0 {
        let d = dec((-x) as nat);
        lemma_dec_value((-x) as nat);
        let s = seq!['-'] + d;
        assert(s.drop_first() =~= d);
        assert(s[0] == '-');
        assert forall|k: int| 0 <= k < s.len() implies (#[trigger] s[k]) != '|' by {
            if k > 0 {
                assert(s[k] == d[k - 1]);
            }
        }
    } else {
        lemma_dec_parse(x as nat, i32::MAX as int);
        lemma_dec_value(x as nat);
    }
}

/// Sixteen to the `k`.
pub open spec fn pow16(k: nat) -> nat
    decreases k,
{
    if k == 0 { 1 } else { 16 * pow16((k - 1) as nat) }
}

proof fn lemma_pow16_pos(k: nat)
    ensures
        pow16(k) >= 1,
    decreases k,
{
    if k > 0 {
        lemma_pow16_pos((k - 1) as nat);
    }
}

proof fn lemma_hex_value_prefix(s: Seq<char>, t: Seq<char>, k: int)
    requires
        0 <= k <= s.len(),
    ensures
        hex_value(s + t, k) == hex_value(s, k),
    decreases k,
{
    if k > 0 {
        lemma_hex_value_prefix(s, t, k - 1);
        assert((s + t)[k - 1] == s[k - 1]);
    }
}

proof fn lemma_mod_step(x: nat, p: nat)
    requires
        p >= 1,
    ensures
        ((x / 16) % p) * 16 + x % 16 == x % (16 * p),
{
    let q = x / 16;
    let r = x % 16;
    let b = q % p;
    let a = q / p;
    assert(x == 16 * q + r) by (nonlinear_arith)
        requires
            q == x / 16,
            r == x % 16,
    ;
    assert(q == p * a + b) by (nonlinear_arith)
        requires
            p >= 1,
            a == q / p,
            b == q % p,
    ;
    assert(0 <= b < p) by (nonlinear_arith)
        requires
            p >= 1,
            b == q % p,
    ;
    assert(0 <= r < 16);
    assert(x == (16 * p) * a + (16 * b + r)) by (nonlinear_arith)
        requires
            x == 16 * q + r,
            q == p * a + b,
    ;
    assert(0 <= 16 * b + r < 16 * p) by (nonlinear_arith)
        requires
            0 <= b < p,
            0 <= r < 16,
    ;
    vstd::arithmetic::div_mod::lemma_fundamental_div_mod_converse(x as int, (16 * p) as int, a as int, (16 * b + r) as int);
}

/// The last `k` hexadecimal digits of `x`: `k` digits whose value is `x` modulo
/// sixteen to the `k`.
pub proof fn lemma_hex_text(x: nat, k: nat)
    ensures
        hex(x, k).len() == k,
        forall|j: int| 0 <= j < k ==> hex_digit(#[trigger] hex(x, k)[j]) >= 0 && !is_ws(hex(x, k)[j])
            && hex(x, k)[j] != '+' && hex(x, k)[j] != '|',
        hex_value(hex(x, k), k as int) == x % pow16(k),
    decreases k,
{
    if k > 0 {
        lemma_hex_text(x / 16, (k - 1) as nat);
        lemma_digit_char_value((x % 16) as int);
        let a = hex(x / 16, (k - 1) as nat);
        let t = seq![digit_char((x % 16) as int)];
        assert(hex(x, k) == a + t);
        lemma_hex_value_prefix(a, t, (k - 1) as int);
        assert((a + t)[k - 1] == digit_char((x % 16) as int));
        assert forall|j: int| 0 <= j < k implies hex_digit(#[trigger] hex(x, k)[j]) >= 0 && !is_ws(hex(x, k)[j])
            && hex(x, k)[j] != '+' && hex(x, k)[j] != '|' by {
            if j < k - 1 {
                assert((a + t)[j] == a[j]);
            }
        }
        assert(pow16(k) == 16 * pow16((k - 1) as nat));
        lemma_pow16_pos((k - 1) as nat);
        lemma_mod_step(x, pow16((k - 1) as nat));
    }
}

/// Sixteen hexadecimal digits of a 64-bit number read back, once trimmed, as that
/// number.
pub proof fn lemma_hex_parse(x: u64)
    ensures
        parse_hex(trimmed(hex(x as nat, 16))) == Some(x as int),
        !hex(x as nat, 16).contains('|'),
{
    let h = hex(x as nat, 16);
    lemma_hex_text(x as nat, 16);
    assert(pow16(16) == 0x1_0000_0000_0000_0000) by {
        reveal_with_fuel(pow16, 17);
    }
    assert(skip_ws(h, 0) == 0);
    assert(trim_end(h, 0, 16) == 16);
    assert(h.subrange(0, 16) =~= h);
    assert(trimmed(h) == h);
    assert(h[0] != '+');
    assert(!h.contains('|'));
}

} // verus!
