//! Reading and writing the parameters of a `go` command. The reader takes
//! the keywords in any order, keeping the last value of a repeated keyword
//! and reporting the repetition; the writer emits the present fields in one
//! fixed canonical order.

use vstd::prelude::*;

use crate::chess::spec_looks_like_move;
use crate::msg::{views, Go, GoV};
use crate::numbers::{
    fmt_u64, lemma_u64_roundtrip, parse_u32, parse_u64, spec_dec_u64, spec_parse_u32,
    spec_parse_u64,
};
use crate::parse::movevec::{self, MoveVecParseError};
use crate::parse::tok;
use crate::parse::EolError;
use crate::token::{is_tok, tok_views, PushTokens, Token};
use crate::msg::{lemma_views_empty, lemma_views_push};
use crate::parse::movevec::MoveVecParseErrorV;
use crate::warn::{lemma_concat_assoc, lemma_concat_empty_l, lemma_concat_empty_r, lemma_concat_push, All, Sink};

verus! {

broadcast use {lemma_views_empty, lemma_views_push, lemma_concat_push, lemma_concat_empty_r, lemma_concat_empty_l, lemma_concat_assoc};

/// An error from reading `go` parameters.
#[derive(Debug, Clone, PartialEq, Eq)]
pub enum GoParseError {
    /// The named token is no `go` keyword.
    UnexpectedToken(String),
    /// The line ended where a value was expected.
    UnexpectedEol(EolError),
    /// The named keyword was given more than once; the last value is kept.
    Duplicate(String),
    /// A search move could not be read.
    InvalidSearchMove(MoveVecParseError),
    /// The value of the named keyword is not a valid integer.
    InvalidIntSub { name: String, token: String },
}

/// The view of a `go`-reading error.
pub enum GoParseErrorV {
    UnexpectedToken(Seq<char>),
    UnexpectedEol,
    Duplicate(Seq<char>),
    InvalidSearchMove(MoveVecParseErrorV),
    InvalidIntSub { name: Seq<char>, token: Seq<char> },
}

impl View for GoParseError {
    type V = GoParseErrorV;

    open spec fn view(&self) -> GoParseErrorV {
        match self {
            GoParseError::UnexpectedToken(t) => GoParseErrorV::UnexpectedToken(t@),
            GoParseError::UnexpectedEol(_) => GoParseErrorV::UnexpectedEol,
            GoParseError::Duplicate(n) => GoParseErrorV::Duplicate(n@),
            GoParseError::InvalidSearchMove(e) => GoParseErrorV::InvalidSearchMove(e@),
            GoParseError::InvalidIntSub { name, token } => GoParseErrorV::InvalidIntSub {
                name: name@,
                token: token@,
            },
        }
    }
}

/// Move-run warnings, wrapped as `go` warnings.
pub open spec fn wrap_searchmoves(w: Seq<MoveVecParseErrorV>) -> Seq<GoParseErrorV> {
    w.map_values(|e: MoveVecParseErrorV| GoParseErrorV::InvalidSearchMove(e))
}

/// The repetition warning for a keyword whose field is already set.
pub open spec fn dup_warn(name: Seq<char>, set: bool) -> Seq<GoParseErrorV> {
    if set {
        seq![GoParseErrorV::Duplicate(name)]
    } else {
        Seq::<GoParseErrorV>::empty()
    }
}

/// What one `u64`-valued keyword does to its field: reads the next token and
/// replaces the field on success, keeping it otherwise.
pub open spec fn s_go_u64(ts: Seq<Seq<char>>, i: int, cur: Option<u64>, name: Seq<char>) -> (
    Option<u64>,
    int,
    Seq<GoParseErrorV>,
) {
    if i >= ts.len() {
        (cur, i, seq![GoParseErrorV::UnexpectedEol])
    } else {
        match spec_parse_u64(ts[i]) {
            Some(v) => (Some(v), i + 1, Seq::<GoParseErrorV>::empty()),
            None => (cur, i + 1, seq![GoParseErrorV::InvalidIntSub { name, token: ts[i] }]),
        }
    }
}

/// As `s_go_u64`, for a `u32` field.
pub open spec fn s_go_u32(ts: Seq<Seq<char>>, i: int, cur: Option<u32>, name: Seq<char>) -> (
    Option<u32>,
    int,
    Seq<GoParseErrorV>,
) {
    if i >= ts.len() {
        (cur, i, seq![GoParseErrorV::UnexpectedEol])
    } else {
        match spec_parse_u32(ts[i]) {
            Some(v) => (Some(v), i + 1, Seq::<GoParseErrorV>::empty()),
            None => (cur, i + 1, seq![GoParseErrorV::InvalidIntSub { name, token: ts[i] }]),
        }
    }
}

/// As `s_go_u64`, for the non-zero `movestogo` field: zero is rejected.
pub open spec fn s_go_nonzero(ts: Seq<Seq<char>>, i: int, cur: Option<u64>, name: Seq<char>) -> (
    Option<u64>,
    int,
    Seq<GoParseErrorV>,
) {
    if i >= ts.len() {
        (cur, i, seq![GoParseErrorV::UnexpectedEol])
    } else {
        match spec_parse_u64(ts[i]) {
            Some(v) => if v != 0 {
                (Some(v), i + 1, Seq::<GoParseErrorV>::empty())
            } else {
                (cur, i + 1, seq![GoParseErrorV::InvalidIntSub { name, token: ts[i] }])
            },
            None => (cur, i + 1, seq![GoParseErrorV::InvalidIntSub { name, token: ts[i] }]),
        }
    }
}

/// What reading `go` parameters does from position `i`, having gathered `g`:
/// each keyword consumes its value into the record; unknown keywords are
/// skipped; the line is consumed to its end.
pub open spec fn spec_go_loop(ts: Seq<Seq<char>>, i: int, g: GoV) -> (
    GoV,
    int,
    Seq<GoParseErrorV>,
)
    decreases ts.len() - i when 0 <= i <= ts.len() via spec_go_loop_dec
{
    if i >= ts.len() {
        (g, i, Seq::<GoParseErrorV>::empty())
    } else {
        let kw = ts[i];
        if kw == "searchmoves"@ {
            let (ms, j, wm) = movevec::spec_parse_moves(ts, i + 1, false, Seq::empty());
            let (g2, j2, w2) = spec_go_loop(ts, j, GoV { searchmoves: Some(ms), ..g });
            (g2, j2, dup_warn("searchmoves"@, g.searchmoves is Some) + wrap_searchmoves(wm) + w2)
        } else if kw == "ponder"@ {
            let (g2, j2, w2) = spec_go_loop(ts, i + 1, GoV { ponder: Some(()), ..g });
            (g2, j2, dup_warn("ponder"@, g.ponder is Some) + w2)
        } else if kw == "infinite"@ {
            let (g2, j2, w2) = spec_go_loop(ts, i + 1, GoV { infinite: Some(()), ..g });
            (g2, j2, dup_warn("infinite"@, g.infinite is Some) + w2)
        } else if kw == "wtime"@ {
            let (v, j, w) = s_go_u64(ts, i + 1, g.wtime, "wtime"@);
            let (g2, j2, w2) = spec_go_loop(ts, j, GoV { wtime: v, ..g });
            (g2, j2, dup_warn("wtime"@, g.wtime is Some) + w + w2)
        } else if kw == "btime"@ {
            let (v, j, w) = s_go_u64(ts, i + 1, g.btime, "btime"@);
            let (g2, j2, w2) = spec_go_loop(ts, j, GoV { btime: v, ..g });
            (g2, j2, dup_warn("btime"@, g.btime is Some) + w + w2)
        } else if kw == "winc"@ {
            let (v, j, w) = s_go_u64(ts, i + 1, g.winc, "winc"@);
            let (g2, j2, w2) = spec_go_loop(ts, j, GoV { winc: v, ..g });
            (g2, j2, dup_warn("winc"@, g.winc is Some) + w + w2)
        } else if kw == "binc"@ {
            let (v, j, w) = s_go_u64(ts, i + 1, g.binc, "binc"@);
            let (g2, j2, w2) = spec_go_loop(ts, j, GoV { binc: v, ..g });
            (g2, j2, dup_warn("binc"@, g.binc is Some) + w + w2)
        } else if kw == "movestogo"@ {
            let (v, j, w) = s_go_nonzero(ts, i + 1, g.movestogo, "movestogo"@);
            let (g2, j2, w2) = spec_go_loop(ts, j, GoV { movestogo: v, ..g });
            (g2, j2, dup_warn("movestogo"@, g.movestogo is Some) + w + w2)
        } else if kw == "mate"@ {
            let (v, j, w) = s_go_u64(ts, i + 1, g.mate, "mate"@);
            let (g2, j2, w2) = spec_go_loop(ts, j, GoV { mate: v, ..g });
            (g2, j2, dup_warn("mate"@, g.mate is Some) + w + w2)
        } else if kw == "depth"@ {
            let (v, j, w) = s_go_u64(ts, i + 1, g.depth, "depth"@);
            let (g2, j2, w2) = spec_go_loop(ts, j, GoV { depth: v, ..g });
            (g2, j2, dup_warn("depth"@, g.depth is Some) + w + w2)
        } else if kw == "nodes"@ {
            let (v, j, w) = s_go_u32(ts, i + 1, g.nodes, "nodes"@);
            let (g2, j2, w2) = spec_go_loop(ts, j, GoV { nodes: v, ..g });
            (g2, j2, dup_warn("nodes"@, g.nodes is Some) + w + w2)
        } else if kw == "movetime"@ {
            let (v, j, w) = s_go_u64(ts, i + 1, g.movetime, "movetime"@);
            let (g2, j2, w2) = spec_go_loop(ts, j, GoV { movetime: v, ..g });
            (g2, j2, dup_warn("movetime"@, g.movetime is Some) + w + w2)
        } else {
            let (g2, j2, w2) = spec_go_loop(ts, i + 1, g);
            (g2, j2, seq![GoParseErrorV::UnexpectedToken(ts[i])] + w2)
        }
    }
}

#[via_fn]
proof fn spec_go_loop_dec(ts: Seq<Seq<char>>, i: int, g: GoV) {
    if i < ts.len() {
        movevec::lemma_moves_bounds(ts, i + 1, false, Seq::empty());
    }
}

/// What reading `go` parameters does on a fresh record.
pub open spec fn spec_parse(ts: Seq<Seq<char>>, i: int) -> (GoV, int, Seq<GoParseErrorV>) {
    spec_go_loop(ts, i, GoV::empty())
}

/// The tokens the fields from `k` on write, in canonical order: searchmoves,
/// ponder, infinite, wtime, btime, winc, binc, movestogo, mate, depth,
/// nodes, movetime.
pub open spec fn spec_fmt_from(g: GoV, k: int) -> Seq<Seq<char>>
    decreases 12 - k when k <= 12
{
    if k >= 12 {
        Seq::empty()
    } else {
        (if k == 0 {
            match g.searchmoves {
                Some(ms) => seq!["searchmoves"@] + ms,
                None => Seq::<Seq<char>>::empty(),
            }
        } else if k == 1 {
            match g.ponder {
                Some(_) => seq!["ponder"@],
                None => Seq::<Seq<char>>::empty(),
            }
        } else if k == 2 {
            match g.infinite {
                Some(_) => seq!["infinite"@],
                None => Seq::<Seq<char>>::empty(),
            }
        } else if k == 3 {
            match g.wtime {
                Some(v) => seq!["wtime"@, spec_dec_u64(v as int)],
                None => Seq::<Seq<char>>::empty(),
            }
        } else if k == 4 {
            match g.btime {
                Some(v) => seq!["btime"@, spec_dec_u64(v as int)],
                None => Seq::<Seq<char>>::empty(),
            }
        } else if k == 5 {
            match g.winc {
                Some(v) => seq!["winc"@, spec_dec_u64(v as int)],
                None => Seq::<Seq<char>>::empty(),
            }
        } else if k == 6 {
            match g.binc {
                Some(v) => seq!["binc"@, spec_dec_u64(v as int)],
                None => Seq::<Seq<char>>::empty(),
            }
        } else if k == 7 {
            match g.movestogo {
                Some(v) => seq!["movestogo"@, spec_dec_u64(v as int)],
                None => Seq::<Seq<char>>::empty(),
            }
        } else if k == 8 {
            match g.mate {
                Some(v) => seq!["mate"@, spec_dec_u64(v as int)],
                None => Seq::<Seq<char>>::empty(),
            }
        } else if k == 9 {
            match g.depth {
                Some(v) => seq!["depth"@, spec_dec_u64(v as int)],
                None => Seq::<Seq<char>>::empty(),
            }
        } else if k == 10 {
            match g.nodes {
                Some(v) => seq!["nodes"@, spec_dec_u64(v as int)],
                None => Seq::<Seq<char>>::empty(),
            }
        } else {
            match g.movetime {
                Some(v) => seq!["movetime"@, spec_dec_u64(v as int)],
                None => Seq::<Seq<char>>::empty(),
            }
        }) + spec_fmt_from(g, k + 1)
    }
}

/// The tokens the whole record writes.
pub open spec fn spec_fmt_toks(g: GoV) -> Seq<Seq<char>> {
    spec_fmt_from(g, 0)
}

/// A record that writing and reading leave unchanged: its search moves are
/// valid and move-shaped, and `movestogo`, when present, is non-zero.
pub open spec fn wf_go(g: GoV) -> bool {
    &&& match g.searchmoves {
        Some(ms) => crate::parse::info::wf_moves(ms),
        None => true,
    }
    &&& g.movestogo != Some(0u64)
}

/// Reads one integer token for the named `go` keyword, keeping `cur` when
/// the token is missing or malformed; repeated keywords are reported first.
fn go_u64<S: Sink<GoParseError>>(
    toks: &Vec<Token>,
    i: &mut usize,
    name: &str,
    cur: Option<u64>,
    warn: &mut S,
) -> (r: Option<u64>)
    requires
        *old(i) <= toks@.len(),
    ensures
        ({
            let (v, j, w) = s_go_u64(tok_views(toks@), *old(i) as int, cur, name@);
            r == v && *final(i) as int == j && views(final(warn).sunk()) == views(
                old(warn).sunk(),
            ) + (dup_warn(name@, cur is Some) + w)
        }),
        *final(i) <= toks@.len(),
{
    if cur.is_some() {
        warn.warn(GoParseError::Duplicate(name.to_owned()));
    }
    match tok::next(toks, i) {
        Some(t) => match parse_u64(t.as_str()) {
            Some(v) => Some(v),
            None => {
                warn.warn(
                    GoParseError::InvalidIntSub {
                        name: name.to_owned(),
                        token: t.as_str().to_owned(),
                    },
                );
                cur
            },
        },
        None => {
            warn.warn(GoParseError::UnexpectedEol(EolError));
            cur
        },
    }
}

/// As `go_u64`, for the 32-bit `nodes` field.
fn go_u32<S: Sink<GoParseError>>(
    toks: &Vec<Token>,
    i: &mut usize,
    name: &str,
    cur: Option<u32>,
    warn: &mut S,
) -> (r: Option<u32>)
    requires
        *old(i) <= toks@.len(),
    ensures
        ({
            let (v, j, w) = s_go_u32(tok_views(toks@), *old(i) as int, cur, name@);
            r == v && *final(i) as int == j && views(final(warn).sunk()) == views(
                old(warn).sunk(),
            ) + (dup_warn(name@, cur is Some) + w)
        }),
        *final(i) <= toks@.len(),
{
    if cur.is_some() {
        warn.warn(GoParseError::Duplicate(name.to_owned()));
    }
    match tok::next(toks, i) {
        Some(t) => match parse_u32(t.as_str()) {
            Some(v) => Some(v),
            None => {
                warn.warn(
                    GoParseError::InvalidIntSub {
                        name: name.to_owned(),
                        token: t.as_str().to_owned(),
                    },
                );
                cur
            },
        },
        None => {
            warn.warn(GoParseError::UnexpectedEol(EolError));
            cur
        },
    }
}

/// As `go_u64`, for the non-zero `movestogo` field: zero is rejected as a
/// malformed value.
fn go_nonzero<S: Sink<GoParseError>>(
    toks: &Vec<Token>,
    i: &mut usize,
    name: &str,
    cur: Option<u64>,
    warn: &mut S,
) -> (r: Option<u64>)
    requires
        *old(i) <= toks@.len(),
    ensures
        ({
            let (v, j, w) = s_go_nonzero(tok_views(toks@), *old(i) as int, cur, name@);
            r == v && *final(i) as int == j && views(final(warn).sunk()) == views(
                old(warn).sunk(),
            ) + (dup_warn(name@, cur is Some) + w)
        }),
        *final(i) <= toks@.len(),
{
    if cur.is_some() {
        warn.warn(GoParseError::Duplicate(name.to_owned()));
    }
    match tok::next(toks, i) {
        Some(t) => match parse_u64(t.as_str()) {
            Some(v) => {
                if v != 0 {
                    Some(v)
                } else {
                    warn.warn(
                        GoParseError::InvalidIntSub {
                            name: name.to_owned(),
                            token: t.as_str().to_owned(),
                        },
                    );
                    cur
                }
            },
            None => {
                warn.warn(
                    GoParseError::InvalidIntSub {
                        name: name.to_owned(),
                        token: t.as_str().to_owned(),
                    },
                );
                cur
            },
        },
        None => {
            warn.warn(GoParseError::UnexpectedEol(EolError));
            cur
        },
    }
}

/// Reads `go` parameters from `i` to the end of the line.
pub fn parse<S: Sink<GoParseError>>(toks: &Vec<Token>, i: &mut usize, warn: &mut S) -> (r: Go)
    requires
        *old(i) <= toks@.len(),
    ensures
        ({
            let (g, j, w) = spec_parse(tok_views(toks@), *old(i) as int);
            r@ == g && *final(i) as int == j && views(final(warn).sunk()) == views(
                old(warn).sunk(),
            ) + w
        }),
        *final(i) == toks@.len(),
{
    let ghost ts = tok_views(toks@);
    let mut g = Go {
        searchmoves: None,
        ponder: None,
        infinite: None,
        wtime: None,
        btime: None,
        winc: None,
        binc: None,
        movestogo: None,
        mate: None,
        depth: None,
        nodes: None,
        movetime: None,
    };
    proof {
        assert(g@ == GoV::empty());
    }
    loop
        invariant
            *i <= toks@.len(),
            ts == tok_views(toks@),
            spec_go_loop(ts, *old(i) as int, GoV::empty()).0 == spec_go_loop(ts, *i as int, g@).0,
            spec_go_loop(ts, *old(i) as int, GoV::empty()).1 == spec_go_loop(ts, *i as int, g@).1,
            views(old(warn).sunk()) + spec_go_loop(ts, *old(i) as int, GoV::empty()).2 == views(
                warn.sunk(),
            ) + spec_go_loop(ts, *i as int, g@).2,
        decreases toks@.len() - *i,
    {
        let t = match tok::next(toks, i) {
            Some(t) => t,
            None => {
                return g;
            },
        };
        if t.is_kw("searchmoves") {
            if g.searchmoves.is_some() {
                warn.warn(GoParseError::Duplicate("searchmoves".to_owned()));
            }
            let mut sub: All<MoveVecParseError> = All::new();
            let ms = movevec::parse(toks, i, false, &mut sub);
            let ghost subx = sub.log@;
            let ghost base = views(warn.sunk());
            let ghost mut done: int = 0;
            proof {
                assert(wrap_searchmoves(views(subx)).take(0) =~= Seq::<GoParseErrorV>::empty());
                assert(base + wrap_searchmoves(views(subx)).take(0) =~= base);
                assert(sub.log@ =~= subx.skip(0));
            }
            while sub.log.len() > 0
                invariant
                    0 <= done <= subx.len(),
                    sub.log@ == subx.skip(done),
                    views(warn.sunk()) == base + wrap_searchmoves(views(subx)).take(done),
                decreases sub.log@.len(),
            {
                let e = sub.log.remove(0);
                proof {
                    assert(e == subx[done]);
                    assert(subx.skip(done).remove(0) =~= subx.skip(done + 1));
                }
                warn.warn(GoParseError::InvalidSearchMove(e));
                proof {
                    assert(views(subx)[done] == subx[done]@);
                    assert(wrap_searchmoves(views(subx)).take(done + 1) =~= wrap_searchmoves(
                        views(subx),
                    ).take(done).push(GoParseErrorV::InvalidSearchMove(e@)));
                    done = done + 1;
                }
            }
            proof {
                assert(subx.skip(done).len() == 0);
                assert(done == subx.len());
                assert(wrap_searchmoves(views(subx)).take(done) =~= wrap_searchmoves(
                    views(subx),
                ));
            }
            g.searchmoves = Some(ms);
        } else if t.is_kw("ponder") {
            if g.ponder.is_some() {
                warn.warn(GoParseError::Duplicate("ponder".to_owned()));
            }
            g.ponder = Some(());
        } else if t.is_kw("infinite") {
            if g.infinite.is_some() {
                warn.warn(GoParseError::Duplicate("infinite".to_owned()));
            }
            g.infinite = Some(());
        } else if t.is_kw("wtime") {
            g.wtime = go_u64(toks, i, "wtime", g.wtime, warn);
        } else if t.is_kw("btime") {
            g.btime = go_u64(toks, i, "btime", g.btime, warn);
        } else if t.is_kw("winc") {
            g.winc = go_u64(toks, i, "winc", g.winc, warn);
        } else if t.is_kw("binc") {
            g.binc = go_u64(toks, i, "binc", g.binc, warn);
        } else if t.is_kw("movestogo") {
            g.movestogo = go_nonzero(toks, i, "movestogo", g.movestogo, warn);
        } else if t.is_kw("mate") {
            g.mate = go_u64(toks, i, "mate", g.mate, warn);
        } else if t.is_kw("depth") {
            g.depth = go_u64(toks, i, "depth", g.depth, warn);
        } else if t.is_kw("nodes") {
            g.nodes = go_u32(toks, i, "nodes", g.nodes, warn);
        } else if t.is_kw("movetime") {
            g.movetime = go_u64(toks, i, "movetime", g.movetime, warn);
        } else {
            warn.warn(GoParseError::UnexpectedToken(t.as_str().to_owned()));
        }
    }
}

/// Writes one keyword and its unsigned value.
fn push_tag_u64<P: PushTokens>(f: &mut P, kw: &str, v: u64)
    requires
        is_tok(kw@),
    ensures
        final(f).toks() == old(f).toks() + seq![kw@, spec_dec_u64(v as int)],
{
    f.push_kw(kw);
    let d = fmt_u64(v);
    proof {
        lemma_u64_roundtrip(v);
    }
    f.push_kw(d.as_str());
    proof {
        assert(final(f).toks() =~= old(f).toks() + seq![kw@, spec_dec_u64(v as int)]);
    }
}

/// Writes the present fields in the canonical order.
pub fn fmt<P: PushTokens>(src: &Go, f: &mut P)
    ensures
        final(f).toks() == old(f).toks() + spec_fmt_toks(src@),
{
    proof {
        reveal_strlit("searchmoves");
        reveal_strlit("ponder");
        reveal_strlit("infinite");
    }
    let ghost g = src@;
    let ghost total = old(f).toks() + spec_fmt_from(g, 0);
    match &src.searchmoves {
        Some(ms) => {
            f.push_kw("searchmoves");
            movevec::fmt(ms, f);
        },
        None => {},
    }
    proof {
        assert(total =~= f.toks() + spec_fmt_from(g, 1));
    }
    if src.ponder.is_some() {
        f.push_kw("ponder");
    }
    proof {
        assert(total =~= f.toks() + spec_fmt_from(g, 2));
    }
    if src.infinite.is_some() {
        f.push_kw("infinite");
    }
    proof {
        assert(total =~= f.toks() + spec_fmt_from(g, 3));
    }
    fmt_clock(src, f);
    proof {
        assert(final(f).toks() =~= old(f).toks() + spec_fmt_toks(src@));
    }
}

/// Writes the clock fields: `wtime`, `btime`, `winc`, `binc`.
#[verifier::rlimit(100)]
fn fmt_clock<P: PushTokens>(src: &Go, f: &mut P)
    ensures
        final(f).toks() == old(f).toks() + spec_fmt_from(src@, 3),
{
    proof {
        reveal_strlit("wtime");
        reveal_strlit("btime");
        reveal_strlit("winc");
        reveal_strlit("binc");
    }
    let ghost g = src@;
    let ghost total = old(f).toks() + spec_fmt_from(g, 3);
    match src.wtime {
        Some(v) => push_tag_u64(f, "wtime", v),
        None => {},
    }
    proof {
        assert(total =~= f.toks() + spec_fmt_from(g, 4));
    }
    match src.btime {
        Some(v) => push_tag_u64(f, "btime", v),
        None => {},
    }
    proof {
        assert(total =~= f.toks() + spec_fmt_from(g, 5));
    }
    match src.winc {
        Some(v) => push_tag_u64(f, "winc", v),
        None => {},
    }
    proof {
        assert(total =~= f.toks() + spec_fmt_from(g, 6));
    }
    match src.binc {
        Some(v) => push_tag_u64(f, "binc", v),
        None => {},
    }
    proof {
        assert(total =~= f.toks() + spec_fmt_from(g, 7));
    }
    fmt_limits(src, f);
    proof {
        assert(final(f).toks() =~= old(f).toks() + spec_fmt_from(g, 3));
    }
}

/// Writes the limit fields: `movestogo`, `mate`, `depth`, `nodes`,
/// `movetime`.
#[verifier::rlimit(100)]
fn fmt_limits<P: PushTokens>(src: &Go, f: &mut P)
    ensures
        final(f).toks() == old(f).toks() + spec_fmt_from(src@, 7),
{
    proof {
        reveal_strlit("movestogo");
        reveal_strlit("mate");
        reveal_strlit("depth");
        reveal_strlit("nodes");
        reveal_strlit("movetime");
    }
    let ghost g = src@;
    let ghost total = old(f).toks() + spec_fmt_from(g, 7);
    match src.movestogo {
        Some(v) => push_tag_u64(f, "movestogo", v),
        None => {},
    }
    proof {
        assert(total =~= f.toks() + spec_fmt_from(g, 8));
    }
    match src.mate {
        Some(v) => push_tag_u64(f, "mate", v),
        None => {},
    }
    proof {
        assert(total =~= f.toks() + spec_fmt_from(g, 9));
    }
    match src.depth {
        Some(v) => push_tag_u64(f, "depth", v),
        None => {},
    }
    proof {
        assert(total =~= f.toks() + spec_fmt_from(g, 10));
    }
    match src.nodes {
        Some(v) => push_tag_u64(f, "nodes", v as u64),
        None => {},
    }
    proof {
        assert(total =~= f.toks() + spec_fmt_from(g, 11));
    }
    match src.movetime {
        Some(v) => push_tag_u64(f, "movetime", v),
        None => {},
    }
    proof {
        assert(total =~= f.toks() + spec_fmt_from(g, 12));
        assert(spec_fmt_from(g, 12) == Seq::<Seq<char>>::empty());
        assert(final(f).toks() =~= old(f).toks() + spec_fmt_from(g, 7));
    }
}

/// Field `k` of `acc` replaced by `g`'s value when `g` has one.
pub open spec fn set_field(acc: GoV, g: GoV, k: int) -> GoV {
    if k == 0 {
        if g.searchmoves is Some {
            GoV { searchmoves: g.searchmoves, ..acc }
        } else {
            acc
        }
    } else if k == 1 {
        if g.ponder is Some {
            GoV { ponder: g.ponder, ..acc }
        } else {
            acc
        }
    } else if k == 2 {
        if g.infinite is Some {
            GoV { infinite: g.infinite, ..acc }
        } else {
            acc
        }
    } else if k == 3 {
        if g.wtime is Some {
            GoV { wtime: g.wtime, ..acc }
        } else {
            acc
        }
    } else if k == 4 {
        if g.btime is Some {
            GoV { btime: g.btime, ..acc }
        } else {
            acc
        }
    } else if k == 5 {
        if g.winc is Some {
            GoV { winc: g.winc, ..acc }
        } else {
            acc
        }
    } else if k == 6 {
        if g.binc is Some {
            GoV { binc: g.binc, ..acc }
        } else {
            acc
        }
    } else if k == 7 {
        if g.movestogo is Some {
            GoV { movestogo: g.movestogo, ..acc }
        } else {
            acc
        }
    } else if k == 8 {
        if g.mate is Some {
            GoV { mate: g.mate, ..acc }
        } else {
            acc
        }
    } else if k == 9 {
        if g.depth is Some {
            GoV { depth: g.depth, ..acc }
        } else {
            acc
        }
    } else if k == 10 {
        if g.nodes is Some {
            GoV { nodes: g.nodes, ..acc }
        } else {
            acc
        }
    } else {
        if g.movetime is Some {
            GoV { movetime: g.movetime, ..acc }
        } else {
            acc
        }
    }
}

/// The fields `k` through the last of `acc` replaced by `g`'s present
/// values.
pub open spec fn set_from(acc: GoV, g: GoV, k: int) -> GoV
    decreases 12 - k when k <= 12
{
    if k >= 12 {
        acc
    } else {
        set_from(set_field(acc, g, k), g, k + 1)
    }
}

/// The `go` keywords' lengths, and the distinctness of the pairs of equal
/// length; together these separate every pair.
proof fn lemma_go_keywords_distinct()
    ensures
        "searchmoves"@.len() == 11,
        "ponder"@.len() == 6,
        "infinite"@.len() == 8,
        "wtime"@.len() == 5,
        "btime"@.len() == 5,
        "winc"@.len() == 4,
        "binc"@.len() == 4,
        "movestogo"@.len() == 9,
        "mate"@.len() == 4,
        "depth"@.len() == 5,
        "nodes"@.len() == 5,
        "movetime"@.len() == 8,
        "wtime"@ != "btime"@,
        "wtime"@ != "depth"@,
        "wtime"@ != "nodes"@,
        "btime"@ != "depth"@,
        "btime"@ != "nodes"@,
        "depth"@ != "nodes"@,
        "winc"@ != "binc"@,
        "winc"@ != "mate"@,
        "binc"@ != "mate"@,
        "infinite"@ != "movetime"@,
{
    reveal_strlit("searchmoves");
    reveal_strlit("ponder");
    reveal_strlit("wtime");
    reveal_strlit("btime");
    reveal_strlit("winc");
    reveal_strlit("binc");
    reveal_strlit("mate");
    reveal_strlit("depth");
    reveal_strlit("nodes");
    reveal_strlit("infinite");
    reveal_strlit("movestogo");
    reveal_strlit("movetime");
    assert("wtime"@ != "btime"@) by {
        if "wtime"@ == "btime"@ {
            assert("wtime"@[0] == 'w' && "btime"@[0] == 'b');
        }
    }
    assert("wtime"@ != "depth"@) by {
        if "wtime"@ == "depth"@ {
            assert("wtime"@[0] == 'w' && "depth"@[0] == 'd');
        }
    }
    assert("wtime"@ != "nodes"@) by {
        if "wtime"@ == "nodes"@ {
            assert("wtime"@[0] == 'w' && "nodes"@[0] == 'n');
        }
    }
    assert("btime"@ != "depth"@) by {
        if "btime"@ == "depth"@ {
            assert("btime"@[0] == 'b' && "depth"@[0] == 'd');
        }
    }
    assert("btime"@ != "nodes"@) by {
        if "btime"@ == "nodes"@ {
            assert("btime"@[0] == 'b' && "nodes"@[0] == 'n');
        }
    }
    assert("depth"@ != "nodes"@) by {
        if "depth"@ == "nodes"@ {
            assert("depth"@[0] == 'd' && "nodes"@[0] == 'n');
        }
    }
    assert("winc"@ != "binc"@) by {
        if "winc"@ == "binc"@ {
            assert("winc"@[0] == 'w' && "binc"@[0] == 'b');
        }
    }
    assert("winc"@ != "mate"@) by {
        if "winc"@ == "mate"@ {
            assert("winc"@[0] == 'w' && "mate"@[0] == 'm');
        }
    }
    assert("binc"@ != "mate"@) by {
        if "binc"@ == "mate"@ {
            assert("binc"@[0] == 'b' && "mate"@[0] == 'm');
        }
    }
    assert("infinite"@ != "movetime"@) by {
        if "infinite"@ == "movetime"@ {
            assert("infinite"@[0] == 'i' && "movetime"@[0] == 'm');
        }
    }
}

/// The first written token of the fields from `k` on, when any is written,
/// is a keyword; it does not look like a move.
proof fn lemma_go_head(g: GoV, k: int)
    requires
        0 <= k <= 12,
    ensures
        spec_fmt_from(g, k).len() > 0 ==> !spec_looks_like_move(spec_fmt_from(g, k)[0]),
    decreases 12 - k,
{
    reveal_strlit("searchmoves");
    reveal_strlit("ponder");
    reveal_strlit("infinite");
    reveal_strlit("wtime");
    reveal_strlit("btime");
    reveal_strlit("winc");
    reveal_strlit("binc");
    reveal_strlit("movestogo");
    reveal_strlit("mate");
    reveal_strlit("depth");
    reveal_strlit("nodes");
    reveal_strlit("movetime");
    if k < 12 {
        lemma_go_head(g, k + 1);
    }
}

/// One step of the read loop over the written `searchmoves` field.
#[verifier::spinoff_prover]
proof fn lemma_go_step_0(g: GoV, acc: GoV, ts: Seq<Seq<char>>, i: int)
    requires
        acc.searchmoves is None,
        0 <= i <= ts.len(),
        ts.subrange(i, ts.len() as int) == spec_fmt_from(g, 0),
        wf_go(g),
    ensures
        ({
            let j = i + (spec_fmt_from(g, 0).len() - spec_fmt_from(g, 1).len());
            &&& 0 <= j <= ts.len()
            &&& ts.subrange(j, ts.len() as int) == spec_fmt_from(g, 1)
            &&& spec_go_loop(ts, i, acc) == spec_go_loop(ts, j, set_field(acc, g, 0))
        }),
{
    lemma_go_keywords_distinct();
    let ft = spec_fmt_from(g, 0);
    assert forall|x: int| i <= x < ts.len() implies ts[x] == ft[x - i] by {
        assert(ts.subrange(i, ts.len() as int)[x - i] == ft[x - i]);
    }
    let j = i + (ft.len() - spec_fmt_from(g, 1).len());
    assert forall|x: int| 0 <= x < ts.len() - j implies ts.subrange(j, ts.len() as int)[x]
        == spec_fmt_from(g, 1)[x] by {
        assert(ts[j + x] == ft[j + x - i]);
    }
    assert(ts.subrange(j, ts.len() as int) =~= spec_fmt_from(g, 1));
    if g.searchmoves is Some {
        let ms = g.searchmoves->0;
        assert(ts[i] == "searchmoves"@);
        assert(ts.subrange(i + 1, i + 1 + ms.len() as int) =~= ms);
        assert(i + 1 + ms.len() == ts.len() || !spec_looks_like_move(ts[i + 1 + ms.len()])) by {
            if i + 1 + ms.len() < ts.len() {
                lemma_go_head(g, 1);
                assert(ts[i + 1 + ms.len()] == spec_fmt_from(g, 1)[0]);
            }
        }
        movevec::lemma_round_trip(ms, ts, i + 1, false, Seq::empty());
        assert(Seq::<Seq<char>>::empty() + ms =~= ms);
        assert(spec_go_loop(ts, i, acc) == spec_go_loop(ts, j, set_field(acc, g, 0)));
    } else {
        assert(j == i);
        assert(set_field(acc, g, 0) == acc);
    }
}

/// One step of the read loop over the written `ponder` field.
#[verifier::spinoff_prover]
proof fn lemma_go_step_1(g: GoV, acc: GoV, ts: Seq<Seq<char>>, i: int)
    requires
        acc.ponder is None,
        0 <= i <= ts.len(),
        ts.subrange(i, ts.len() as int) == spec_fmt_from(g, 1),
        wf_go(g),
    ensures
        ({
            let j = i + (spec_fmt_from(g, 1).len() - spec_fmt_from(g, 2).len());
            &&& 0 <= j <= ts.len()
            &&& ts.subrange(j, ts.len() as int) == spec_fmt_from(g, 2)
            &&& spec_go_loop(ts, i, acc) == spec_go_loop(ts, j, set_field(acc, g, 1))
        }),
{
    lemma_go_keywords_distinct();
    let ft = spec_fmt_from(g, 1);
    assert forall|x: int| i <= x < ts.len() implies ts[x] == ft[x - i] by {
        assert(ts.subrange(i, ts.len() as int)[x - i] == ft[x - i]);
    }
    let j = i + (ft.len() - spec_fmt_from(g, 2).len());
    assert forall|x: int| 0 <= x < ts.len() - j implies ts.subrange(j, ts.len() as int)[x]
        == spec_fmt_from(g, 2)[x] by {
        assert(ts[j + x] == ft[j + x - i]);
    }
    assert(ts.subrange(j, ts.len() as int) =~= spec_fmt_from(g, 2));
    if g.ponder is Some {
        assert(ts[i] == "ponder"@);
        assert(g.ponder == Some(()));
        assert(spec_go_loop(ts, i, acc) == spec_go_loop(ts, j, set_field(acc, g, 1)));
    } else {
        assert(j == i);
        assert(set_field(acc, g, 1) == acc);
    }
}

/// One step of the read loop over the written `infinite` field.
#[verifier::spinoff_prover]
proof fn lemma_go_step_2(g: GoV, acc: GoV, ts: Seq<Seq<char>>, i: int)
    requires
        acc.infinite is None,
        0 <= i <= ts.len(),
        ts.subrange(i, ts.len() as int) == spec_fmt_from(g, 2),
        wf_go(g),
    ensures
        ({
            let j = i + (spec_fmt_from(g, 2).len() - spec_fmt_from(g, 3).len());
            &&& 0 <= j <= ts.len()
            &&& ts.subrange(j, ts.len() as int) == spec_fmt_from(g, 3)
            &&& spec_go_loop(ts, i, acc) == spec_go_loop(ts, j, set_field(acc, g, 2))
        }),
{
    lemma_go_keywords_distinct();
    let ft = spec_fmt_from(g, 2);
    assert forall|x: int| i <= x < ts.len() implies ts[x] == ft[x - i] by {
        assert(ts.subrange(i, ts.len() as int)[x - i] == ft[x - i]);
    }
    let j = i + (ft.len() - spec_fmt_from(g, 3).len());
    assert forall|x: int| 0 <= x < ts.len() - j implies ts.subrange(j, ts.len() as int)[x]
        == spec_fmt_from(g, 3)[x] by {
        assert(ts[j + x] == ft[j + x - i]);
    }
    assert(ts.subrange(j, ts.len() as int) =~= spec_fmt_from(g, 3));
    if g.infinite is Some {
        assert(ts[i] == "infinite"@);
        assert(g.infinite == Some(()));
        assert(spec_go_loop(ts, i, acc) == spec_go_loop(ts, j, set_field(acc, g, 2)));
    } else {
        assert(j == i);
        assert(set_field(acc, g, 2) == acc);
    }
}

/// One step of the read loop over the written `wtime` field.
#[verifier::spinoff_prover]
proof fn lemma_go_step_3(g: GoV, acc: GoV, ts: Seq<Seq<char>>, i: int)
    requires
        acc.wtime is None,
        0 <= i <= ts.len(),
        ts.subrange(i, ts.len() as int) == spec_fmt_from(g, 3),
        wf_go(g),
    ensures
        ({
            let j = i + (spec_fmt_from(g, 3).len() - spec_fmt_from(g, 4).len());
            &&& 0 <= j <= ts.len()
            &&& ts.subrange(j, ts.len() as int) == spec_fmt_from(g, 4)
            &&& spec_go_loop(ts, i, acc) == spec_go_loop(ts, j, set_field(acc, g, 3))
        }),
{
    lemma_go_keywords_distinct();
    let ft = spec_fmt_from(g, 3);
    assert forall|x: int| i <= x < ts.len() implies ts[x] == ft[x - i] by {
        assert(ts.subrange(i, ts.len() as int)[x - i] == ft[x - i]);
    }
    let j = i + (ft.len() - spec_fmt_from(g, 4).len());
    assert forall|x: int| 0 <= x < ts.len() - j implies ts.subrange(j, ts.len() as int)[x]
        == spec_fmt_from(g, 4)[x] by {
        assert(ts[j + x] == ft[j + x - i]);
    }
    assert(ts.subrange(j, ts.len() as int) =~= spec_fmt_from(g, 4));
    if g.wtime is Some {
        assert(ts[i] == "wtime"@);
        lemma_u64_roundtrip(g.wtime->0);
        assert(ts[i + 1] == spec_dec_u64(g.wtime->0 as int));
        assert(spec_go_loop(ts, i, acc) == spec_go_loop(ts, j, set_field(acc, g, 3)));
    } else {
        assert(j == i);
        assert(set_field(acc, g, 3) == acc);
    }
}

/// One step of the read loop over the written `btime` field.
#[verifier::spinoff_prover]
proof fn lemma_go_step_4(g: GoV, acc: GoV, ts: Seq<Seq<char>>, i: int)
    requires
        acc.btime is None,
        0 <= i <= ts.len(),
        ts.subrange(i, ts.len() as int) == spec_fmt_from(g, 4),
        wf_go(g),
    ensures
        ({
            let j = i + (spec_fmt_from(g, 4).len() - spec_fmt_from(g, 5).len());
            &&& 0 <= j <= ts.len()
            &&& ts.subrange(j, ts.len() as int) == spec_fmt_from(g, 5)
            &&& spec_go_loop(ts, i, acc) == spec_go_loop(ts, j, set_field(acc, g, 4))
        }),
{
    lemma_go_keywords_distinct();
    let ft = spec_fmt_from(g, 4);
    assert forall|x: int| i <= x < ts.len() implies ts[x] == ft[x - i] by {
        assert(ts.subrange(i, ts.len() as int)[x - i] == ft[x - i]);
    }
    let j = i + (ft.len() - spec_fmt_from(g, 5).len());
    assert forall|x: int| 0 <= x < ts.len() - j implies ts.subrange(j, ts.len() as int)[x]
        == spec_fmt_from(g, 5)[x] by {
        assert(ts[j + x] == ft[j + x - i]);
    }
    assert(ts.subrange(j, ts.len() as int) =~= spec_fmt_from(g, 5));
    if g.btime is Some {
        assert(ts[i] == "btime"@);
        lemma_u64_roundtrip(g.btime->0);
        assert(ts[i + 1] == spec_dec_u64(g.btime->0 as int));
        assert(spec_go_loop(ts, i, acc) == spec_go_loop(ts, j, set_field(acc, g, 4)));
    } else {
        assert(j == i);
        assert(set_field(acc, g, 4) == acc);
    }
}

/// One step of the read loop over the written `winc` field.
#[verifier::spinoff_prover]
proof fn lemma_go_step_5(g: GoV, acc: GoV, ts: Seq<Seq<char>>, i: int)
    requires
        acc.winc is None,
        0 <= i <= ts.len(),
        ts.subrange(i, ts.len() as int) == spec_fmt_from(g, 5),
        wf_go(g),
    ensures
        ({
            let j = i + (spec_fmt_from(g, 5).len() - spec_fmt_from(g, 6).len());
            &&& 0 <= j <= ts.len()
            &&& ts.subrange(j, ts.len() as int) == spec_fmt_from(g, 6)
            &&& spec_go_loop(ts, i, acc) == spec_go_loop(ts, j, set_field(acc, g, 5))
        }),
{
    lemma_go_keywords_distinct();
    let ft = spec_fmt_from(g, 5);
    assert forall|x: int| i <= x < ts.len() implies ts[x] == ft[x - i] by {
        assert(ts.subrange(i, ts.len() as int)[x - i] == ft[x - i]);
    }
    let j = i + (ft.len() - spec_fmt_from(g, 6).len());
    assert forall|x: int| 0 <= x < ts.len() - j implies ts.subrange(j, ts.len() as int)[x]
        == spec_fmt_from(g, 6)[x] by {
        assert(ts[j + x] == ft[j + x - i]);
    }
    assert(ts.subrange(j, ts.len() as int) =~= spec_fmt_from(g, 6));
    if g.winc is Some {
        assert(ts[i] == "winc"@);
        lemma_u64_roundtrip(g.winc->0);
        assert(ts[i + 1] == spec_dec_u64(g.winc->0 as int));
        assert(spec_go_loop(ts, i, acc) == spec_go_loop(ts, j, set_field(acc, g, 5)));
    } else {
        assert(j == i);
        assert(set_field(acc, g, 5) == acc);
    }
}

/// One step of the read loop over the written `binc` field.
#[verifier::spinoff_prover]
proof fn lemma_go_step_6(g: GoV, acc: GoV, ts: Seq<Seq<char>>, i: int)
    requires
        acc.binc is None,
        0 <= i <= ts.len(),
        ts.subrange(i, ts.len() as int) == spec_fmt_from(g, 6),
        wf_go(g),
    ensures
        ({
            let j = i + (spec_fmt_from(g, 6).len() - spec_fmt_from(g, 7).len());
            &&& 0 <= j <= ts.len()
            &&& ts.subrange(j, ts.len() as int) == spec_fmt_from(g, 7)
            &&& spec_go_loop(ts, i, acc) == spec_go_loop(ts, j, set_field(acc, g, 6))
        }),
{
    lemma_go_keywords_distinct();
    let ft = spec_fmt_from(g, 6);
    assert forall|x: int| i <= x < ts.len() implies ts[x] == ft[x - i] by {
        assert(ts.subrange(i, ts.len() as int)[x - i] == ft[x - i]);
    }
    let j = i + (ft.len() - spec_fmt_from(g, 7).len());
    assert forall|x: int| 0 <= x < ts.len() - j implies ts.subrange(j, ts.len() as int)[x]
        == spec_fmt_from(g, 7)[x] by {
        assert(ts[j + x] == ft[j + x - i]);
    }
    assert(ts.subrange(j, ts.len() as int) =~= spec_fmt_from(g, 7));
    if g.binc is Some {
        assert(ts[i] == "binc"@);
        lemma_u64_roundtrip(g.binc->0);
        assert(ts[i + 1] == spec_dec_u64(g.binc->0 as int));
        assert(spec_go_loop(ts, i, acc) == spec_go_loop(ts, j, set_field(acc, g, 6)));
    } else {
        assert(j == i);
        assert(set_field(acc, g, 6) == acc);
    }
}

/// One step of the read loop over the written `movestogo` field.
#[verifier::spinoff_prover]
proof fn lemma_go_step_7(g: GoV, acc: GoV, ts: Seq<Seq<char>>, i: int)
    requires
        acc.movestogo is None,
        0 <= i <= ts.len(),
        ts.subrange(i, ts.len() as int) == spec_fmt_from(g, 7),
        wf_go(g),
    ensures
        ({
            let j = i + (spec_fmt_from(g, 7).len() - spec_fmt_from(g, 8).len());
            &&& 0 <= j <= ts.len()
            &&& ts.subrange(j, ts.len() as int) == spec_fmt_from(g, 8)
            &&& spec_go_loop(ts, i, acc) == spec_go_loop(ts, j, set_field(acc, g, 7))
        }),
{
    lemma_go_keywords_distinct();
    let ft = spec_fmt_from(g, 7);
    assert forall|x: int| i <= x < ts.len() implies ts[x] == ft[x - i] by {
        assert(ts.subrange(i, ts.len() as int)[x - i] == ft[x - i]);
    }
    let j = i + (ft.len() - spec_fmt_from(g, 8).len());
    assert forall|x: int| 0 <= x < ts.len() - j implies ts.subrange(j, ts.len() as int)[x]
        == spec_fmt_from(g, 8)[x] by {
        assert(ts[j + x] == ft[j + x - i]);
    }
    assert(ts.subrange(j, ts.len() as int) =~= spec_fmt_from(g, 8));
    if g.movestogo is Some {
        assert(ts[i] == "movestogo"@);
        lemma_u64_roundtrip(g.movestogo->0);
        assert(ts[i + 1] == spec_dec_u64(g.movestogo->0 as int));
        assert(g.movestogo->0 != 0);
        assert(spec_go_loop(ts, i, acc) == spec_go_loop(ts, j, set_field(acc, g, 7)));
    } else {
        assert(j == i);
        assert(set_field(acc, g, 7) == acc);
    }
}

/// One step of the read loop over the written `mate` field.
#[verifier::spinoff_prover]
proof fn lemma_go_step_8(g: GoV, acc: GoV, ts: Seq<Seq<char>>, i: int)
    requires
        acc.mate is None,
        0 <= i <= ts.len(),
        ts.subrange(i, ts.len() as int) == spec_fmt_from(g, 8),
        wf_go(g),
    ensures
        ({
            let j = i + (spec_fmt_from(g, 8).len() - spec_fmt_from(g, 9).len());
            &&& 0 <= j <= ts.len()
            &&& ts.subrange(j, ts.len() as int) == spec_fmt_from(g, 9)
            &&& spec_go_loop(ts, i, acc) == spec_go_loop(ts, j, set_field(acc, g, 8))
        }),
{
    lemma_go_keywords_distinct();
    let ft = spec_fmt_from(g, 8);
    assert forall|x: int| i <= x < ts.len() implies ts[x] == ft[x - i] by {
        assert(ts.subrange(i, ts.len() as int)[x - i] == ft[x - i]);
    }
    let j = i + (ft.len() - spec_fmt_from(g, 9).len());
    assert forall|x: int| 0 <= x < ts.len() - j implies ts.subrange(j, ts.len() as int)[x]
        == spec_fmt_from(g, 9)[x] by {
        assert(ts[j + x] == ft[j + x - i]);
    }
    assert(ts.subrange(j, ts.len() as int) =~= spec_fmt_from(g, 9));
    if g.mate is Some {
        assert(ts[i] == "mate"@);
        lemma_u64_roundtrip(g.mate->0);
        assert(ts[i + 1] == spec_dec_u64(g.mate->0 as int));
        assert(spec_go_loop(ts, i, acc) == spec_go_loop(ts, j, set_field(acc, g, 8)));
    } else {
        assert(j == i);
        assert(set_field(acc, g, 8) == acc);
    }
}

/// One step of the read loop over the written `depth` field.
#[verifier::spinoff_prover]
proof fn lemma_go_step_9(g: GoV, acc: GoV, ts: Seq<Seq<char>>, i: int)
    requires
        acc.depth is None,
        0 <= i <= ts.len(),
        ts.subrange(i, ts.len() as int) == spec_fmt_from(g, 9),
        wf_go(g),
    ensures
        ({
            let j = i + (spec_fmt_from(g, 9).len() - spec_fmt_from(g, 10).len());
            &&& 0 <= j <= ts.len()
            &&& ts.subrange(j, ts.len() as int) == spec_fmt_from(g, 10)
            &&& spec_go_loop(ts, i, acc) == spec_go_loop(ts, j, set_field(acc, g, 9))
        }),
{
    lemma_go_keywords_distinct();
    let ft = spec_fmt_from(g, 9);
    assert forall|x: int| i <= x < ts.len() implies ts[x] == ft[x - i] by {
        assert(ts.subrange(i, ts.len() as int)[x - i] == ft[x - i]);
    }
    let j = i + (ft.len() - spec_fmt_from(g, 10).len());
    assert forall|x: int| 0 <= x < ts.len() - j implies ts.subrange(j, ts.len() as int)[x]
        == spec_fmt_from(g, 10)[x] by {
        assert(ts[j + x] == ft[j + x - i]);
    }
    assert(ts.subrange(j, ts.len() as int) =~= spec_fmt_from(g, 10));
    if g.depth is Some {
        assert(ts[i] == "depth"@);
        lemma_u64_roundtrip(g.depth->0);
        assert(ts[i + 1] == spec_dec_u64(g.depth->0 as int));
        assert(spec_go_loop(ts, i, acc) == spec_go_loop(ts, j, set_field(acc, g, 9)));
    } else {
        assert(j == i);
        assert(set_field(acc, g, 9) == acc);
    }
}

/// One step of the read loop over the written `nodes` field.
#[verifier::spinoff_prover]
proof fn lemma_go_step_10(g: GoV, acc: GoV, ts: Seq<Seq<char>>, i: int)
    requires
        acc.nodes is None,
        0 <= i <= ts.len(),
        ts.subrange(i, ts.len() as int) == spec_fmt_from(g, 10),
        wf_go(g),
    ensures
        ({
            let j = i + (spec_fmt_from(g, 10).len() - spec_fmt_from(g, 11).len());
            &&& 0 <= j <= ts.len()
            &&& ts.subrange(j, ts.len() as int) == spec_fmt_from(g, 11)
            &&& spec_go_loop(ts, i, acc) == spec_go_loop(ts, j, set_field(acc, g, 10))
        }),
{
    lemma_go_keywords_distinct();
    let ft = spec_fmt_from(g, 10);
    assert forall|x: int| i <= x < ts.len() implies ts[x] == ft[x - i] by {
        assert(ts.subrange(i, ts.len() as int)[x - i] == ft[x - i]);
    }
    let j = i + (ft.len() - spec_fmt_from(g, 11).len());
    assert forall|x: int| 0 <= x < ts.len() - j implies ts.subrange(j, ts.len() as int)[x]
        == spec_fmt_from(g, 11)[x] by {
        assert(ts[j + x] == ft[j + x - i]);
    }
    assert(ts.subrange(j, ts.len() as int) =~= spec_fmt_from(g, 11));
    if g.nodes is Some {
        assert(ts[i] == "nodes"@);
        lemma_u64_roundtrip(g.nodes->0 as u64);
        assert(ts[i + 1] == spec_dec_u64(g.nodes->0 as int));
        assert(spec_go_loop(ts, i, acc) == spec_go_loop(ts, j, set_field(acc, g, 10)));
    } else {
        assert(j == i);
        assert(set_field(acc, g, 10) == acc);
    }
}

/// One step of the read loop over the written `movetime` field.
#[verifier::spinoff_prover]
proof fn lemma_go_step_11(g: GoV, acc: GoV, ts: Seq<Seq<char>>, i: int)
    requires
        acc.movetime is None,
        0 <= i <= ts.len(),
        ts.subrange(i, ts.len() as int) == spec_fmt_from(g, 11),
        wf_go(g),
    ensures
        ({
            let j = i + (spec_fmt_from(g, 11).len() - spec_fmt_from(g, 12).len());
            &&& 0 <= j <= ts.len()
            &&& ts.subrange(j, ts.len() as int) == spec_fmt_from(g, 12)
            &&& spec_go_loop(ts, i, acc) == spec_go_loop(ts, j, set_field(acc, g, 11))
        }),
{
    lemma_go_keywords_distinct();
    let ft = spec_fmt_from(g, 11);
    assert forall|x: int| i <= x < ts.len() implies ts[x] == ft[x - i] by {
        assert(ts.subrange(i, ts.len() as int)[x - i] == ft[x - i]);
    }
    let j = i + (ft.len() - spec_fmt_from(g, 12).len());
    assert forall|x: int| 0 <= x < ts.len() - j implies ts.subrange(j, ts.len() as int)[x]
        == spec_fmt_from(g, 12)[x] by {
        assert(ts[j + x] == ft[j + x - i]);
    }
    assert(ts.subrange(j, ts.len() as int) =~= spec_fmt_from(g, 12));
    if g.movetime is Some {
        assert(ts[i] == "movetime"@);
        lemma_u64_roundtrip(g.movetime->0);
        assert(ts[i + 1] == spec_dec_u64(g.movetime->0 as int));
        assert(spec_go_loop(ts, i, acc) == spec_go_loop(ts, j, set_field(acc, g, 11)));
    } else {
        assert(j == i);
        assert(set_field(acc, g, 11) == acc);
    }
}

/// The fields from `k` on are all absent.
pub open spec fn unset_from(acc: GoV, k: int) -> bool {
    &&& (k <= 0 ==> acc.searchmoves is None)
    &&& (k <= 1 ==> acc.ponder is None)
    &&& (k <= 2 ==> acc.infinite is None)
    &&& (k <= 3 ==> acc.wtime is None)
    &&& (k <= 4 ==> acc.btime is None)
    &&& (k <= 5 ==> acc.winc is None)
    &&& (k <= 6 ==> acc.binc is None)
    &&& (k <= 7 ==> acc.movestogo is None)
    &&& (k <= 8 ==> acc.mate is None)
    &&& (k <= 9 ==> acc.depth is None)
    &&& (k <= 10 ==> acc.nodes is None)
    &&& (k <= 11 ==> acc.movetime is None)
}

/// Reading what the fields from `k` on wrote fills exactly those fields.
proof fn lemma_go_loop_round(g: GoV, acc: GoV, ts: Seq<Seq<char>>, i: int, k: int)
    requires
        0 <= k <= 12,
        0 <= i <= ts.len(),
        ts.subrange(i, ts.len() as int) == spec_fmt_from(g, k),
        wf_go(g),
        unset_from(acc, k),
    ensures
        spec_go_loop(ts, i, acc) == (
            set_from(acc, g, k),
            ts.len() as int,
            Seq::<GoParseErrorV>::empty(),
        ),
    decreases 12 - k,
{
    if k == 12 {
        assert(ts.len() == i);
    } else {
        let j = i + (spec_fmt_from(g, k).len() - spec_fmt_from(g, k + 1).len());
        if k == 0 {
            lemma_go_step_0(g, acc, ts, i);
        } else if k == 1 {
            lemma_go_step_1(g, acc, ts, i);
        } else if k == 2 {
            lemma_go_step_2(g, acc, ts, i);
        } else if k == 3 {
            lemma_go_step_3(g, acc, ts, i);
        } else if k == 4 {
            lemma_go_step_4(g, acc, ts, i);
        } else if k == 5 {
            lemma_go_step_5(g, acc, ts, i);
        } else if k == 6 {
            lemma_go_step_6(g, acc, ts, i);
        } else if k == 7 {
            lemma_go_step_7(g, acc, ts, i);
        } else if k == 8 {
            lemma_go_step_8(g, acc, ts, i);
        } else if k == 9 {
            lemma_go_step_9(g, acc, ts, i);
        } else if k == 10 {
            lemma_go_step_10(g, acc, ts, i);
        } else {
            lemma_go_step_11(g, acc, ts, i);
        }
        lemma_go_loop_round(g, set_field(acc, g, k), ts, j, k + 1);
    }
}

/// Starting from the empty record and filling every present field of `g`
/// rebuilds `g`.
proof fn lemma_set_from_empty(g: GoV)
    ensures
        set_from(GoV::empty(), g, 0) == g,
{
    reveal_with_fuel(set_from, 14);
    assert(set_from(GoV::empty(), g, 0) =~= g);
}

/// Reading what writing produced recovers the record, consumes the whole
/// remainder of the line, and reports nothing.
pub proof fn lemma_round_trip(g: GoV, ts: Seq<Seq<char>>, i: int)
    requires
        0 <= i <= ts.len(),
        ts.subrange(i, ts.len() as int) == spec_fmt_toks(g),
        wf_go(g),
    ensures
        spec_parse(ts, i) == (g, ts.len() as int, Seq::<GoParseErrorV>::empty()),
{
    lemma_go_loop_round(g, GoV::empty(), ts, i, 0);
    lemma_set_from_empty(g);
}

/// Every token the fields from `k` on write is valid.
pub proof fn lemma_fmt_valid_from(g: GoV, k: int)
    requires
        0 <= k <= 12,
        wf_go(g),
    ensures
        forall|j: int| 0 <= j < spec_fmt_from(g, k).len() ==> is_tok(
            #[trigger] spec_fmt_from(g, k)[j],
        ),
    decreases 12 - k,
{
    reveal_strlit("searchmoves");
    reveal_strlit("ponder");
    reveal_strlit("infinite");
    reveal_strlit("wtime");
    reveal_strlit("btime");
    reveal_strlit("winc");
    reveal_strlit("binc");
    reveal_strlit("movestogo");
    reveal_strlit("mate");
    reveal_strlit("depth");
    reveal_strlit("nodes");
    reveal_strlit("movetime");
    if k < 12 {
        lemma_fmt_valid_from(g, k + 1);
        if k == 0 && g.searchmoves is Some {
            crate::token::lemma_valid_concat(seq!["searchmoves"@], g.searchmoves->0);
            crate::token::lemma_valid_concat(
                seq!["searchmoves"@] + g.searchmoves->0,
                spec_fmt_from(g, 1),
            );
        } else {
            if k == 3 && g.wtime is Some {
                lemma_u64_roundtrip(g.wtime->0);
            }
            if k == 4 && g.btime is Some {
                lemma_u64_roundtrip(g.btime->0);
            }
            if k == 5 && g.winc is Some {
                lemma_u64_roundtrip(g.winc->0);
            }
            if k == 6 && g.binc is Some {
                lemma_u64_roundtrip(g.binc->0);
            }
            if k == 7 && g.movestogo is Some {
                lemma_u64_roundtrip(g.movestogo->0);
            }
            if k == 8 && g.mate is Some {
                lemma_u64_roundtrip(g.mate->0);
            }
            if k == 9 && g.depth is Some {
                lemma_u64_roundtrip(g.depth->0);
            }
            if k == 10 && g.nodes is Some {
                lemma_u64_roundtrip(g.nodes->0 as u64);
            }
            if k == 11 && g.movetime is Some {
                lemma_u64_roundtrip(g.movetime->0);
            }
            let seg = spec_fmt_from(g, k).subrange(
                0,
                spec_fmt_from(g, k).len() - spec_fmt_from(g, k + 1).len(),
            );
            assert forall|j: int| 0 <= j < spec_fmt_from(g, k).len() implies is_tok(
                spec_fmt_from(g, k)[j],
            ) by {
                let whole = spec_fmt_from(g, k);
                let tail = spec_fmt_from(g, k + 1);
                if j >= whole.len() - tail.len() {
                    assert(whole[j] == tail[j - (whole.len() - tail.len())]);
                }
            }
        }
    }
}

} // verus!
