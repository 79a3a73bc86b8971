//! The UCI protocol: parsing a command line into a command, and the protocol
//! state the handler keeps between commands.

use vstd::prelude::*;
use vstd::string::StrSliceExecFns;
use vstd::string::StringExecFns;
use std::sync::Arc;
use std::sync::atomic::AtomicBool;
use crate::text::{tokens, views, split_tokens, eq_text, eq_text_ignore_case, eq_ignore_case, parse_int, parse_unsigned};
use crate::flags::set_flag;

verus! {

/// A command of the protocol. Text arguments are kept as given; the perturbation
/// size of `perturbparams` is kept as its token (it is a real number).
#[allow(inconsistent_fields)]
pub enum UciCommand {
    Uci,
    IsReady,
    UciNewGame,
    Position { fen: Option<String>, moves: Vec<String> },
    Go {
        wtime: Option<u64>,
        btime: Option<u64>,
        movetime: Option<u64>,
        winc: Option<u64>,
        binc: Option<u64>,
        depth: Option<u32>,
        ponder: bool,
    },
    PonderHit,
    Stop,
    Quit,
    SetOption { name: String, value: String },
    Perft { depth: u32 },
    LoadParams { path: String },
    SaveParams { path: String },
    PerturbParams { path: String, c: String },
    RunSPSA,
    Unknown,
}

// ---------------------------------------------------------------------------
// What a command line means
// ---------------------------------------------------------------------------

/// Tokens joined by single spaces.
pub open spec fn join(ts: Seq<Seq<char>>) -> Seq<char>
    decreases ts.len(),
{
    if ts.len() == 0 {
        Seq::empty()
    } else if ts.len() == 1 {
        ts[0]
    } else {
        join(ts.drop_last()) + seq![' '] + ts.last()
    }
}

/// `acc` with `w` added after a space (no space when `acc` is empty).
pub open spec fn append_word(acc: Seq<char>, w: Seq<char>) -> Seq<char> {
    if acc.len() == 0 { w } else { acc + seq![' '] + w }
}

/// Index of the first token after the position's description.
pub open spec fn position_rest(toks: Seq<Seq<char>>) -> int {
    if toks.len() > 1 && toks[1] == "startpos"@ {
        2
    } else if toks.len() > 1 && toks[1] == "fen"@ {
        8
    } else {
        1
    }
}

/// The FEN of a `position` command: the six tokens after `fen`.
pub open spec fn position_fen(toks: Seq<Seq<char>>) -> Option<Seq<char>> {
    if toks.len() > 1 && toks[1] != "startpos"@ && toks[1] == "fen"@ {
        Some(join(toks.subrange(2, 8)))
    } else {
        None
    }
}

/// The moves of a `position` command: every token after `moves`.
pub open spec fn position_moves(toks: Seq<Seq<char>>) -> Seq<Seq<char>> {
    let i = position_rest(toks);
    if i < toks.len() && toks[i] == "moves"@ {
        toks.subrange(i + 1, toks.len() as int)
    } else {
        Seq::empty()
    }
}

/// A `u64` argument, if the token is one.
pub open spec fn arg_u64(t: Seq<char>) -> Option<u64> {
    match parse_int(t, false, 0, u64::MAX as int) {
        Some(v) => Some(v as u64),
        None => None,
    }
}

/// A `u32` argument, if the token is one.
pub open spec fn arg_u32(t: Seq<char>) -> Option<u32> {
    match parse_int(t, false, 0, u32::MAX as int) {
        Some(v) => Some(v as u32),
        None => None,
    }
}

/// The arguments of a `go` command: wtime, btime, movetime, winc, binc, depth, ponder.
pub type GoArgs = (Option<u64>, Option<u64>, Option<u64>, Option<u64>, Option<u64>, Option<u32>, bool);

/// Whether a token names a `go` argument with a value.
pub open spec fn is_go_key(t: Seq<char>) -> bool {
    t == "wtime"@ || t == "btime"@ || t == "movetime"@ || t == "winc"@ || t == "binc"@ || t == "depth"@
}

/// `go` arguments read from token `i` on: `ponder` sets the flag; a key followed by a
/// token takes that token's value (`None` if it is not a number) and skips it; any
/// other token is skipped.
pub open spec fn go_scan(toks: Seq<Seq<char>>, i: int, a: GoArgs) -> GoArgs
    decreases toks.len() - i,
{
    if i < 0 || i >= toks.len() {
        a
    } else if toks[i] == "ponder"@ {
        go_scan(toks, i + 1, (a.0, a.1, a.2, a.3, a.4, a.5, true))
    } else if is_go_key(toks[i]) {
        if i + 1 < toks.len() {
            let v = toks[i + 1];
            let b = if toks[i] == "wtime"@ {
                (arg_u64(v), a.1, a.2, a.3, a.4, a.5, a.6)
            } else if toks[i] == "btime"@ {
                (a.0, arg_u64(v), a.2, a.3, a.4, a.5, a.6)
            } else if toks[i] == "movetime"@ {
                (a.0, a.1, arg_u64(v), a.3, a.4, a.5, a.6)
            } else if toks[i] == "winc"@ {
                (a.0, a.1, a.2, arg_u64(v), a.4, a.5, a.6)
            } else if toks[i] == "binc"@ {
                (a.0, a.1, a.2, a.3, arg_u64(v), a.5, a.6)
            } else {
                (a.0, a.1, a.2, a.3, a.4, arg_u32(v), a.6)
            };
            go_scan(toks, i + 2, b)
        } else {
            go_scan(toks, i + 1, a)
        }
    } else {
        go_scan(toks, i + 1, a)
    }
}

/// Option name words from token `i` up to `value` or the end, and where they stop.
pub open spec fn name_scan(toks: Seq<Seq<char>>, i: int, name: Seq<char>) -> (Seq<char>, int)
    decreases toks.len() - i,
{
    if 0 <= i < toks.len() && toks[i] != "value"@ {
        name_scan(toks, i + 1, append_word(name, toks[i]))
    } else {
        (name, i)
    }
}

/// Reading option name words never moves backwards.
pub proof fn lemma_name_scan(toks: Seq<Seq<char>>, i: int, name: Seq<char>)
    requires
        0 <= i,
    ensures
        name_scan(toks, i, name).1 >= i,
        i <= toks.len() ==> name_scan(toks, i, name).1 <= toks.len(),
    decreases toks.len() - i,
{
    if 0 <= i < toks.len() && toks[i] != "value"@ {
        lemma_name_scan(toks, i + 1, append_word(name, toks[i]));
    }
}

/// Option value words from token `i` to the end.
pub open spec fn value_scan(toks: Seq<Seq<char>>, i: int, value: Seq<char>) -> Seq<char>
    decreases toks.len() - i,
{
    if 0 <= i < toks.len() {
        value_scan(toks, i + 1, append_word(value, toks[i]))
    } else {
        value
    }
}

/// Name and value of a `setoption` command read from token `i` on.
pub open spec fn setoption_scan(toks: Seq<Seq<char>>, i: int, name: Seq<char>, value: Seq<char>) -> (Seq<char>, Seq<char>)
    decreases toks.len() - i,
{
    if i < 0 || i >= toks.len() {
        (name, value)
    } else if toks[i] == "name"@ {
        let (n2, j) = name_scan(toks, i + 1, name);
        proof {
            lemma_name_scan(toks, i + 1, name);
        }
        setoption_scan(toks, j, n2, value)
    } else if toks[i] == "value"@ {
        (name, value_scan(toks, i + 1, value))
    } else {
        setoption_scan(toks, i + 1, name, value)
    }
}

/// Whether a command line can be parsed: a `position fen` command needs the six
/// FEN fields.
pub open spec fn parsable(toks: Seq<Seq<char>>) -> bool {
    !(toks.len() > 1 && toks[0] == "position"@ && toks[1] != "startpos"@ && toks[1] == "fen"@ && toks.len() < 8)
}

/// The characters of an optional string.
pub open spec fn opt_view(o: Option<String>) -> Option<Seq<char>> {
    match o {
        Some(s) => Some(s@),
        None => None,
    }
}

/// Whether `c` is the command the tokens `toks` of a line give.
pub open spec fn is_command(toks: Seq<Seq<char>>, c: UciCommand) -> bool {
    if toks.len() == 0 {
        c is Unknown
    } else {
        let t = toks[0];
        if t == "uci"@ {
            c is Uci
        } else if t == "isready"@ {
            c is IsReady
        } else if t == "ucinewgame"@ {
            c is UciNewGame
        } else if t == "stop"@ {
            c is Stop
        } else if t == "quit"@ {
            c is Quit
        } else if t == "position"@ {
            c matches UciCommand::Position { fen, moves } && opt_view(fen) == position_fen(toks)
                && views(moves@) == position_moves(toks)
        } else if t == "ponderhit"@ {
            c is PonderHit
        } else if t == "go"@ {
            c matches UciCommand::Go { wtime, btime, movetime, winc, binc, depth, ponder }
                && (wtime, btime, movetime, winc, binc, depth, ponder)
                == go_scan(toks, 1, (None, None, None, None, None, None, false))
        } else if t == "setoption"@ {
            c matches UciCommand::SetOption { name, value } && (name@, value@) == setoption_scan(toks, 1, Seq::empty(), Seq::empty())
        } else if t == "perft"@ {
            c matches UciCommand::Perft { depth } && depth == (if toks.len() >= 2 && arg_u32(toks[1]) is Some {
                arg_u32(toks[1])->0
            } else {
                1u32
            })
        } else if t == "loadparams"@ {
            if toks.len() >= 2 { c matches UciCommand::LoadParams { path } && path@ == toks[1] } else { c is Unknown }
        } else if t == "saveparams"@ {
            if toks.len() >= 2 { c matches UciCommand::SaveParams { path } && path@ == toks[1] } else { c is Unknown }
        } else if t == "perturbparams"@ {
            if toks.len() >= 3 {
                c matches UciCommand::PerturbParams { path, c: cc } && path@ == toks[1] && cc@ == toks[2]
            } else {
                c is Unknown
            }
        } else if t == "runspsa"@ {
            c is RunSPSA
        } else {
            c is Unknown
        }
    }
}

// ---------------------------------------------------------------------------
// Parsing
// ---------------------------------------------------------------------------

fn copy_text(s: &String) -> (r: String)
    ensures
        r@ == s@,
{
    s.as_str().to_owned()
}

fn join_tokens(toks: &Vec<String>, from: usize, to: usize) -> (r: String)
    requires
        from <= to <= toks@.len(),
    ensures
        r@ == join(views(toks@).subrange(from as int, to as int)),
{
    let mut out = String::new();
    let mut k: usize = from;
    proof {
        assert(views(toks@).subrange(from as int, from as int) =~= Seq::<Seq<char>>::empty());
    }
    while k < to
        invariant
            from <= k <= to <= toks@.len(),
            out@ == join(views(toks@).subrange(from as int, k as int)),
        decreases to - k,
    {
        let ghost prev = views(toks@).subrange(from as int, k as int);
        let ghost next = views(toks@).subrange(from as int, k + 1);
        proof {
            assert(next.drop_last() =~= prev);
            assert(next.last() == toks@[k as int]@);
        }
        if k > from {
            out.append(" ");
            proof {
                reveal_strlit(" ");
            }
        }
        out.append(toks[k].as_str());
        proof {
            if k == from {
                assert(next =~= seq![toks@[k as int]@]);
            }
            assert(out@ =~= join(next));
        }
        k += 1;
    }
    out
}

fn append_word_to(acc: &mut String, w: &String)
    ensures
        final(acc)@ == append_word(old(acc)@, w@),
{
    if !acc.as_str().is_empty() {
        acc.append(" ");
        proof {
            reveal_strlit(" ");
        }
    }
    acc.append(w.as_str());
}

fn parse_go(toks: &Vec<String>) -> (r: GoArgs)
    ensures
        r == go_scan(views(toks@), 1, (None, None, None, None, None, None, false)),
{
    let ghost ts = views(toks@);
    let mut a: GoArgs = (None, None, None, None, None, None, false);
    let mut i: usize = 1;
    while i < toks.len()
        invariant
            ts == views(toks@),
            1 <= i,
            go_scan(ts, 1, (None, None, None, None, None, None, false)) == go_scan(ts, i as int, a),
        decreases toks@.len() - i,
    {
        let t = toks[i].as_str();
        assert(ts[i as int] == t@);
        if eq_text(t, "ponder") {
            a = (a.0, a.1, a.2, a.3, a.4, a.5, true);
            i += 1;
        } else if eq_text(t, "wtime") || eq_text(t, "btime") || eq_text(t, "movetime") || eq_text(t, "winc")
            || eq_text(t, "binc") || eq_text(t, "depth") {
            if i + 1 < toks.len() {
                let v = toks[i + 1].as_str();
                assert(ts[i + 1] == v@);
                if eq_text(t, "wtime") {
                    a = (parse_unsigned(v, u64::MAX), a.1, a.2, a.3, a.4, a.5, a.6);
                } else if eq_text(t, "btime") {
                    a = (a.0, parse_unsigned(v, u64::MAX), a.2, a.3, a.4, a.5, a.6);
                } else if eq_text(t, "movetime") {
                    a = (a.0, a.1, parse_unsigned(v, u64::MAX), a.3, a.4, a.5, a.6);
                } else if eq_text(t, "winc") {
                    a = (a.0, a.1, a.2, parse_unsigned(v, u64::MAX), a.4, a.5, a.6);
                } else if eq_text(t, "binc") {
                    a = (a.0, a.1, a.2, a.3, parse_unsigned(v, u64::MAX), a.5, a.6);
                } else {
                    let d = match parse_unsigned(v, 4294967295) {
                        Some(x) => Some(x as u32),
                        None => None,
                    };
                    a = (a.0, a.1, a.2, a.3, a.4, d, a.6);
                }
                i += 2;
            } else {
                i += 1;
            }
        } else {
            i += 1;
        }
    }
    a
}

fn parse_setoption(toks: &Vec<String>) -> (r: (String, String))
    ensures
        (r.0@, r.1@) == setoption_scan(views(toks@), 1, Seq::empty(), Seq::empty()),
{
    let ghost ts = views(toks@);
    let mut name = String::new();
    let mut value = String::new();
    let mut i: usize = 1;
    while i < toks.len()
        invariant
            ts == views(toks@),
            1 <= i,
            setoption_scan(ts, 1, Seq::empty(), Seq::empty()) == setoption_scan(ts, i as int, name@, value@),
        decreases toks@.len() - i,
    {
        let t = toks[i].as_str();
        assert(ts[i as int] == t@);
        if eq_text(t, "name") {
            i += 1;
            let ghost start = i;
            let ghost name0 = name@;
            while i < toks.len() && !eq_text(toks[i].as_str(), "value")
                invariant
                    ts == views(toks@),
                    start <= i <= toks@.len(),
                    name_scan(ts, start as int, name0) == name_scan(ts, i as int, name@),
                decreases toks@.len() - i,
            {
                assert(ts[i as int] == toks@[i as int]@);
                append_word_to(&mut name, &toks[i]);
                i += 1;
            }
            proof {
                if i < toks.len() {
                    assert(ts[i as int] == toks@[i as int]@);
                }
            }
        } else if eq_text(t, "value") {
            i += 1;
            let ghost start = i;
            let ghost value0 = value@;
            while i < toks.len()
                invariant
                    ts == views(toks@),
                    start <= i <= toks@.len(),
                    value_scan(ts, start as int, value0) == value_scan(ts, i as int, value@),
                decreases toks@.len() - i,
            {
                assert(ts[i as int] == toks@[i as int]@);
                append_word_to(&mut value, &toks[i]);
                i += 1;
            }
        } else {
            i += 1;
        }
    }
    (name, value)
}

/// Parses a command line (see `is_command`).
pub fn parse_command(input: &str) -> (r: UciCommand)
    requires
        parsable(tokens(input@)),
    ensures
        is_command(tokens(input@), r),
{
    let toks = split_tokens(input);
    let ghost ts = tokens(input@);
    assert(views(toks@) == ts);
    if toks.len() == 0 {
        return UciCommand::Unknown;
    }
    let t = toks[0].as_str();
    assert(ts[0] == t@);
    if eq_text(t, "uci") {
        UciCommand::Uci
    } else if eq_text(t, "isready") {
        UciCommand::IsReady
    } else if eq_text(t, "ucinewgame") {
        UciCommand::UciNewGame
    } else if eq_text(t, "stop") {
        UciCommand::Stop
    } else if eq_text(t, "quit") {
        UciCommand::Quit
    } else if eq_text(t, "position") {
        let mut fen: Option<String> = None;
        let mut moves: Vec<String> = Vec::new();
        let mut i: usize = 1;
        if toks.len() > 1 && eq_text(toks[1].as_str(), "startpos") {
            i = 2;
        } else if toks.len() > 1 && eq_text(toks[1].as_str(), "fen") {
            fen = Some(join_tokens(&toks, 2, 8));
            i = 8;
        }
        proof {
            if toks@.len() > 1 {
                assert(ts[1] == toks@[1]@);
            }
        }
        if i < toks.len() && eq_text(toks[i].as_str(), "moves") {
            assert(ts[i as int] == toks@[i as int]@);
            i += 1;
            let ghost first = i;
            while i < toks.len()
                invariant
                    ts == views(toks@),
                    first <= i <= toks@.len(),
                    views(moves@) == ts.subrange(first as int, i as int),
                decreases toks@.len() - i,
            {
                let m = copy_text(&toks[i]);
                proof {
                    assert(views(moves@.push(m)) =~= views(moves@).push(m@));
                    assert(ts.subrange(first as int, i + 1) =~= ts.subrange(first as int, i as int).push(ts[i as int]));
                }
                moves.push(m);
                i += 1;
            }
        } else {
            proof {
                if i < toks@.len() {
                    assert(ts[i as int] == toks@[i as int]@);
                }
                assert(views(moves@) =~= Seq::<Seq<char>>::empty());
            }
        }
        UciCommand::Position { fen, moves }
    } else if eq_text(t, "ponderhit") {
        UciCommand::PonderHit
    } else if eq_text(t, "go") {
        let a = parse_go(&toks);
        UciCommand::Go { wtime: a.0, btime: a.1, movetime: a.2, winc: a.3, binc: a.4, depth: a.5, ponder: a.6 }
    } else if eq_text(t, "setoption") {
        let (name, value) = parse_setoption(&toks);
        UciCommand::SetOption { name, value }
    } else if eq_text(t, "perft") {
        if toks.len() >= 2 {
            assert(ts[1] == toks@[1]@);
            if let Some(d) = parse_unsigned(toks[1].as_str(), 4294967295) {
                return UciCommand::Perft { depth: d as u32 };
            }
        }
        UciCommand::Perft { depth: 1 }
    } else if eq_text(t, "loadparams") {
        if toks.len() >= 2 {
            assert(ts[1] == toks@[1]@);
            UciCommand::LoadParams { path: copy_text(&toks[1]) }
        } else {
            UciCommand::Unknown
        }
    } else if eq_text(t, "saveparams") {
        if toks.len() >= 2 {
            assert(ts[1] == toks@[1]@);
            UciCommand::SaveParams { path: copy_text(&toks[1]) }
        } else {
            UciCommand::Unknown
        }
    } else if eq_text(t, "perturbparams") {
        if toks.len() >= 3 {
            assert(ts[1] == toks@[1]@);
            assert(ts[2] == toks@[2]@);
            UciCommand::PerturbParams { path: copy_text(&toks[1]), c: copy_text(&toks[2]) }
        } else {
            UciCommand::Unknown
        }
    } else if eq_text(t, "runspsa") {
        UciCommand::RunSPSA
    } else {
        UciCommand::Unknown
    }
}

/// Whether a command line can be parsed (see `parsable`).
pub fn can_parse(input: &str) -> (r: bool)
    ensures
        r == parsable(tokens(input@)),
{
    let toks = split_tokens(input);
    let ghost ts = tokens(input@);
    if toks.len() > 1 {
        assert(ts[0] == toks@[0]@);
        assert(ts[1] == toks@[1]@);
        !(eq_text(toks[0].as_str(), "position") && !eq_text(toks[1].as_str(), "startpos") && eq_text(toks[1].as_str(), "fen")
            && toks.len() < 8)
    } else {
        true
    }
}

// ---------------------------------------------------------------------------
// Options
// ---------------------------------------------------------------------------

/// What a `setoption` command asks of the handler.
#[derive(Clone, Copy, PartialEq, Eq, Debug, Structural)]
pub enum OptionAction {
    MultiPv(usize),
    Hash(usize),
    MoveOverhead(u64),
    Threads(u8),
    NormalizeScore(bool),
    ShowWdl(bool),
    /// A known option with a value that is not a number: nothing to do.
    Ignore,
    /// Any other name: a search parameter.
    SetParam,
}

/// `x` clamped to `[lo, hi]`.
pub open spec fn clamp_nat(x: int, lo: int, hi: int) -> int {
    if x < lo { lo } else if x > hi { hi } else { x }
}

/// The action for `setoption name <name> value <value>`: the standard options
/// (names compared ignoring ASCII case) with their values clamped to their ranges,
/// and every other name passed on as a search parameter.
pub open spec fn spec_option_action(name: Seq<char>, value: Seq<char>) -> OptionAction {
    if eq_ignore_case(name, "multipv"@) {
        match parse_int(value, false, 0, usize::MAX as int) {
            Some(x) => OptionAction::MultiPv(clamp_nat(x, 1, 5) as usize),
            None => OptionAction::Ignore,
        }
    } else if eq_ignore_case(name, "hash"@) {
        match parse_int(value, false, 0, usize::MAX as int) {
            Some(x) => OptionAction::Hash(clamp_nat(x, 1, 1024) as usize),
            None => OptionAction::Ignore,
        }
    } else if eq_ignore_case(name, "move overhead"@) {
        match parse_int(value, false, 0, u64::MAX as int) {
            Some(x) => OptionAction::MoveOverhead(clamp_nat(x, 1, 1000) as u64),
            None => OptionAction::Ignore,
        }
    } else if eq_ignore_case(name, "threads"@) {
        match parse_int(value, false, 0, u8::MAX as int) {
            Some(x) => OptionAction::Threads(clamp_nat(x, 1, 128) as u8),
            None => OptionAction::Ignore,
        }
    } else if eq_ignore_case(name, "normalizescore"@) {
        OptionAction::NormalizeScore(eq_ignore_case(value, "true"@))
    } else if eq_ignore_case(name, "uci_showwdl"@) {
        OptionAction::ShowWdl(eq_ignore_case(value, "true"@))
    } else {
        OptionAction::SetParam
    }
}

fn clamp_u64(x: u64, lo: u64, hi: u64) -> (r: u64)
    requires
        lo <= hi,
    ensures
        r == clamp_nat(x as int, lo as int, hi as int),
{
    if x < lo { lo } else if x > hi { hi } else { x }
}

/// Decides what a `setoption` command does (see `spec_option_action`).
pub fn decide_option(name: &str, value: &str) -> (r: OptionAction)
    ensures
        r == spec_option_action(name@, value@),
{
    if eq_text_ignore_case(name, "multipv") {
        match parse_unsigned(value, usize::MAX as u64) {
            Some(x) => OptionAction::MultiPv(clamp_u64(x, 1, 5) as usize),
            None => OptionAction::Ignore,
        }
    } else if eq_text_ignore_case(name, "hash") {
        match parse_unsigned(value, usize::MAX as u64) {
            Some(x) => OptionAction::Hash(clamp_u64(x, 1, 1024) as usize),
            None => OptionAction::Ignore,
        }
    } else if eq_text_ignore_case(name, "move overhead") {
        match parse_unsigned(value, u64::MAX) {
            Some(x) => OptionAction::MoveOverhead(clamp_u64(x, 1, 1000)),
            None => OptionAction::Ignore,
        }
    } else if eq_text_ignore_case(name, "threads") {
        match parse_unsigned(value, 255) {
            Some(x) => OptionAction::Threads(clamp_u64(x, 1, 128) as u8),
            None => OptionAction::Ignore,
        }
    } else if eq_text_ignore_case(name, "normalizescore") {
        OptionAction::NormalizeScore(eq_text_ignore_case(value, "true"))
    } else if eq_text_ignore_case(name, "uci_showwdl") {
        OptionAction::ShowWdl(eq_text_ignore_case(value, "true"))
    } else {
        OptionAction::SetParam
    }
}

// ---------------------------------------------------------------------------
// Protocol state
// ---------------------------------------------------------------------------

/// Options and clock information the protocol handler keeps between commands.
pub struct UciState {
    pub multipv: usize,
    pub verbose: bool,
    pub uci_show_wdl: bool,
    pub normalize_score: bool,
    pub threads: u8,
    pub move_overhead: u64,
    pub stop: Arc<AtomicBool>,
    pub last_wtime: Option<u64>,
    pub last_btime: Option<u64>,
    pub last_winc: Option<u64>,
    pub last_binc: Option<u64>,
}

impl UciState {
    /// One principal variation, WDL shown, scores not normalised, one thread, 10 ms
    /// move overhead, a fresh stop flag, and no clock information.
    pub fn new(verbose: bool) -> (r: UciState)
        ensures
            r.multipv == 1,
            r.verbose == verbose,
            r.uci_show_wdl,
            !r.normalize_score,
            r.threads == 1,
            r.move_overhead == 10,
            r.last_wtime is None && r.last_btime is None && r.last_winc is None && r.last_binc is None,
    {
        UciState {
            multipv: 1,
            verbose,
            uci_show_wdl: true,
            normalize_score: false,
            threads: 1,
            move_overhead: 10,
            stop: Arc::new(AtomicBool::new(false)),
            last_wtime: None,
            last_btime: None,
            last_winc: None,
            last_binc: None,
        }
    }

    /// Records the clock information of a `go` command.
    pub fn save_time(&mut self, wtime: Option<u64>, btime: Option<u64>, winc: Option<u64>, binc: Option<u64>)
        ensures
            final(self).last_wtime == wtime,
            final(self).last_btime == btime,
            final(self).last_winc == winc,
            final(self).last_binc == binc,
            final(self).multipv == old(self).multipv,
            final(self).threads == old(self).threads,
            final(self).move_overhead == old(self).move_overhead,
            final(self).stop == old(self).stop,
    {
        self.last_wtime = wtime;
        self.last_btime = btime;
        self.last_winc = winc;
        self.last_binc = binc;
    }

    /// Tells running searches to stop.
    pub fn stop(&self) {
        set_flag(&*self.stop, true);
    }

    /// Clears the stop flag.
    pub fn reset_stop(&self) {
        set_flag(&*self.stop, false);
    }

    /// Sets the move overhead in milliseconds.
    pub fn set_move_overhead(&mut self, ms: u64)
        ensures
            final(self).move_overhead == ms,
            final(self).threads == old(self).threads,
            final(self).multipv == old(self).multipv,
            final(self).stop == old(self).stop,
    {
        self.move_overhead = ms;
    }

    /// Sets the number of search threads.
    pub fn set_threads(&mut self, n: u8)
        ensures
            final(self).threads == n,
            final(self).move_overhead == old(self).move_overhead,
            final(self).multipv == old(self).multipv,
            final(self).stop == old(self).stop,
    {
        self.threads = n;
    }
}


/// The `go` keys with a value, in the order of the arguments: wtime, btime, movetime,
/// winc, binc, depth.
pub open spec fn go_key(k: int) -> Seq<char> {
    if k == 0 {
        "wtime"@
    } else if k == 1 {
        "btime"@
    } else if k == 2 {
        "movetime"@
    } else if k == 3 {
        "winc"@
    } else if k == 4 {
        "binc"@
    } else {
        "depth"@
    }
}

/// Argument `k` of a `go` command as a number, if set.
pub open spec fn go_field(a: GoArgs, k: int) -> Option<int> {
    let o = if k == 0 {
        a.0
    } else if k == 1 {
        a.1
    } else if k == 2 {
        a.2
    } else if k == 3 {
        a.3
    } else if k == 4 {
        a.4
    } else {
        match a.5 {
            Some(d) => Some(d as u64),
            None => None,
        }
    };
    match o {
        Some(v) => Some(v as int),
        None => None,
    }
}

/// A decimal value that fits argument `k` (a `u32` for the depth, a `u64` otherwise).
pub open spec fn go_value(k: int, t: Seq<char>) -> Option<int> {
    if k == 5 { parse_int(t, false, 0, u32::MAX as int) } else { parse_int(t, false, 0, u64::MAX as int) }
}

proof fn lemma_go_keys_distinct()
    ensures
        forall|k: int, l: int| 0 <= k < 6 && 0 <= l < 6 && k != l ==> go_key(k) != go_key(l),
        forall|k: int| 0 <= k < 6 ==> go_key(k) != "ponder"@ && is_go_key(go_key(k)),
{
    reveal_strlit("wtime");
    reveal_strlit("btime");
    reveal_strlit("movetime");
    reveal_strlit("winc");
    reveal_strlit("binc");
    reveal_strlit("depth");
    reveal_strlit("ponder");
    assert("wtime"@[0] != "btime"@[0] && "wtime"@[0] != "movetime"@[0] && "wtime"@[0] != "depth"@[0]);
    assert("wtime"@.len() != "winc"@.len() && "wtime"@.len() != "binc"@.len());
    assert("btime"@[0] != "movetime"@[0] && "btime"@[0] != "winc"@[0] && "btime"@.len() != "binc"@.len());
    assert("btime"@[0] != "depth"@[0]);
    assert("movetime"@.len() != "winc"@.len() && "movetime"@.len() != "binc"@.len() && "movetime"@.len() != "depth"@.len());
    assert("winc"@[0] != "binc"@[0] && "winc"@.len() != "depth"@.len() && "binc"@.len() != "depth"@.len());
    assert("ponder"@[0] != "wtime"@[0] && "ponder"@[0] != "btime"@[0] && "ponder"@[0] != "movetime"@[0]);
    assert("ponder"@[0] != "winc"@[0] && "ponder"@[0] != "binc"@[0] && "ponder"@[0] != "depth"@[0]);
}

/// Scanning `go` arguments leaves argument `k` as it is when its key no longer occurs.
proof fn lemma_go_scan_keeps(toks: Seq<Seq<char>>, i: int, a: GoArgs, k: int)
    requires
        0 <= k < 6,
        0 <= i,
        forall|j: int| i <= j < toks.len() ==> toks[j] != go_key(k),
    ensures
        go_field(go_scan(toks, i, a), k) == go_field(a, k),
    decreases toks.len() - i,
{
    if i < toks.len() {
        if toks[i] == "ponder"@ {
            lemma_go_scan_keeps(toks, i + 1, (a.0, a.1, a.2, a.3, a.4, a.5, true), k);
        } else if is_go_key(toks[i]) {
            if i + 1 < toks.len() {
                let v = toks[i + 1];
                let b = if toks[i] == "wtime"@ {
                    (arg_u64(v), a.1, a.2, a.3, a.4, a.5, a.6)
                } else if toks[i] == "btime"@ {
                    (a.0, arg_u64(v), a.2, a.3, a.4, a.5, a.6)
                } else if toks[i] == "movetime"@ {
                    (a.0, a.1, arg_u64(v), a.3, a.4, a.5, a.6)
                } else if toks[i] == "winc"@ {
                    (a.0, a.1, a.2, arg_u64(v), a.4, a.5, a.6)
                } else if toks[i] == "binc"@ {
                    (a.0, a.1, a.2, a.3, arg_u64(v), a.5, a.6)
                } else {
                    (a.0, a.1, a.2, a.3, a.4, arg_u32(v), a.6)
                };
                assert(go_field(b, k) == go_field(a, k));
                lemma_go_scan_keeps(toks, i + 2, b, k);
            } else {
                lemma_go_scan_keeps(toks, i + 1, a, k);
            }
        } else {
            lemma_go_scan_keeps(toks, i + 1, a, k);
        }
    }
}

/// Each `go` key followed by a number sets its argument: `go <key> <n>` followed by
/// tokens in which that key does not occur again gives argument `key` the value of `n`
/// (and no value when `n` is not a number that fits).
pub proof fn lemma_go_key_sets_argument(k: int, n: Seq<char>, rest: Seq<Seq<char>>)
    requires
        0 <= k < 6,
        forall|j: int| 0 <= j < rest.len() ==> rest[j] != go_key(k),
    ensures
        go_field(go_scan(seq!["go"@, go_key(k), n] + rest, 1, (None, None, None, None, None, None, false)), k)
            == go_value(k, n),
{
    lemma_go_keys_distinct();
    let toks = seq!["go"@, go_key(k), n] + rest;
    let a: GoArgs = (None, None, None, None, None, None, false);
    assert(toks[1] == go_key(k));
    assert(toks[2] == n);
    let v = n;
    let b = if toks[1] == "wtime"@ {
        (arg_u64(v), a.1, a.2, a.3, a.4, a.5, a.6)
    } else if toks[1] == "btime"@ {
        (a.0, arg_u64(v), a.2, a.3, a.4, a.5, a.6)
    } else if toks[1] == "movetime"@ {
        (a.0, a.1, arg_u64(v), a.3, a.4, a.5, a.6)
    } else if toks[1] == "winc"@ {
        (a.0, a.1, a.2, arg_u64(v), a.4, a.5, a.6)
    } else if toks[1] == "binc"@ {
        (a.0, a.1, a.2, a.3, arg_u64(v), a.5, a.6)
    } else {
        (a.0, a.1, a.2, a.3, a.4, arg_u32(v), a.6)
    };
    assert(go_scan(toks, 1, a) == go_scan(toks, 3, b));
    assert(go_field(b, k) == go_value(k, n)) by {
        assert(go_key(0) == "wtime"@ && go_key(1) == "btime"@ && go_key(2) == "movetime"@);
        assert(go_key(3) == "winc"@ && go_key(4) == "binc"@ && go_key(5) == "depth"@);
    }
    assert forall|j: int| 3 <= j < toks.len() implies toks[j] != go_key(k) by {
        assert(toks[j] == rest[j - 3]);
    }
    lemma_go_scan_keeps(toks, 3, b, k);
}

} // verus!
