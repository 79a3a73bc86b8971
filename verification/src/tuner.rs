//! Parameter tuning support: reading the win/loss/draw counts out of a match
//! runner's report.

use vstd::prelude::*;
use crate::text::{contains_text, occurs_at, parse_int, parse_unsigned, pieces, split_n, starts_with, trim, trimmed,
    views};

verus! {

/// Wins, losses and draws of the first engine in a match.
#[derive(Debug, Clone, Copy, PartialEq, Eq, Structural)]
pub struct MatchResult {
    pub wins: u32,
    pub losses: u32,
    pub draws: u32,
}

/// The number after a field label: the rest of the field, trimmed, read as a `u32`,
/// or 0 if it is not one.
pub open spec fn field_value(t: Seq<char>, label_len: int) -> u32 {
    match parse_int(trimmed(t.skip(label_len)), false, 0, u32::MAX as int) {
        Some(v) => v as u32,
        None => 0,
    }
}

/// The counts after one trimmed field of a `Games` line: `Wins:`, `Losses:` and
/// `Draws:` set their count.
pub open spec fn apply_field(st: MatchResult, t: Seq<char>) -> MatchResult {
    if occurs_at(t, "Wins:"@, 0) {
        MatchResult { wins: field_value(t, "Wins:"@.len() as int), ..st }
    } else if occurs_at(t, "Losses:"@, 0) {
        MatchResult { losses: field_value(t, "Losses:"@.len() as int), ..st }
    } else if occurs_at(t, "Draws:"@, 0) {
        MatchResult { draws: field_value(t, "Draws:"@.len() as int), ..st }
    } else {
        st
    }
}

/// The counts after the comma-separated fields of a line.
pub open spec fn apply_fields(st: MatchResult, parts: Seq<Seq<char>>) -> MatchResult
    decreases parts.len(),
{
    if parts.len() == 0 {
        st
    } else {
        apply_field(apply_fields(st, parts.drop_last()), trimmed(parts.last()))
    }
}

/// The counts after the given lines: each line that contains `Games` is read field
/// by field.
pub open spec fn apply_lines(lines: Seq<Seq<char>>) -> MatchResult
    decreases lines.len(),
{
    if lines.len() == 0 {
        MatchResult { wins: 0, losses: 0, draws: 0 }
    } else {
        let st = apply_lines(lines.drop_last());
        let l = lines.last();
        if exists|k: int| occurs_at(l, "Games"@, k) {
            apply_fields(st, pieces(l, ',', 0, usize::MAX as int))
        } else {
            st
        }
    }
}

/// The counts a match report gives (later lines override earlier ones).
pub open spec fn spec_parse_wdl(output: Seq<char>) -> MatchResult {
    apply_lines(pieces(output, '\n', 0, usize::MAX as int))
}

/// Reads the number after a label of `label_len` characters.
fn read_field(t: &str, label_len: usize) -> (r: u32)
    requires
        label_len <= t@.len(),
    ensures
        r == field_value(t@, label_len as int),
{
    let n = t.unicode_len();
    let rest = trim(t.substring_char(label_len, n));
    proof {
        assert(t@.subrange(label_len as int, n as int) =~= t@.skip(label_len as int));
    }
    match parse_unsigned(rest.as_str(), u32::MAX as u64) {
        Some(v) => v as u32,
        None => 0,
    }
}

/// Reads the wins, losses and draws out of a match report (see `spec_parse_wdl`).
pub fn parse_wdl(output: &str) -> (r: MatchResult)
    ensures
        r == spec_parse_wdl(output@),
{
    proof {
        reveal_strlit("Wins:");
        reveal_strlit("Losses:");
        reveal_strlit("Draws:");
    }
    let lines = split_n(output, '\n', usize::MAX);
    let ghost lv = views(lines@);
    let mut st = MatchResult { wins: 0, losses: 0, draws: 0 };
    let mut i: usize = 0;
    while i < lines.len()
        invariant
            i <= lines@.len(),
            lv == views(lines@),
            lv == pieces(output@, '\n', 0, usize::MAX as int),
            st == apply_lines(lv.take(i as int)),
            "Wins:"@.len() == 5,
            "Losses:"@.len() == 7,
            "Draws:"@.len() == 6,
        decreases lines@.len() - i,
    {
        let line = lines[i].as_str();
        proof {
            assert(lv.take(i + 1).drop_last() =~= lv.take(i as int));
            assert(lv.take(i + 1).last() == line@);
        }
        if contains_text(line, "Games") {
            let parts = split_n(line, ',', usize::MAX);
            let ghost pv = views(parts@);
            let ghost st0 = st;
            let mut j: usize = 0;
            while j < parts.len()
                invariant
                    j <= parts@.len(),
                    pv == views(parts@),
                    pv == pieces(line@, ',', 0, usize::MAX as int),
                    st == apply_fields(st0, pv.take(j as int)),
                    "Wins:"@.len() == 5,
                    "Losses:"@.len() == 7,
                    "Draws:"@.len() == 6,
                decreases parts@.len() - j,
            {
                let t = trim(parts[j].as_str());
                proof {
                    assert(pv.take(j + 1).drop_last() =~= pv.take(j as int));
                    assert(pv.take(j + 1).last() == parts@[j as int]@);
                }
                if starts_with(t.as_str(), "Wins:") {
                    st.wins = read_field(t.as_str(), 5);
                } else if starts_with(t.as_str(), "Losses:") {
                    st.losses = read_field(t.as_str(), 7);
                } else if starts_with(t.as_str(), "Draws:") {
                    st.draws = read_field(t.as_str(), 6);
                }
                j += 1;
            }
            proof {
                assert(pv.take(parts@.len() as int) =~= pv);
            }
        }
        i += 1;
    }
    proof {
        assert(lv.take(lines@.len() as int) =~= lv);
    }
    st
}

} // verus!
