//! Reading and writing one item of an `info` report: a keyword and its
//! value, which may be an integer, a permille quantity, a move, a run of
//! moves, or a score.

use vstd::prelude::*;

use crate::chess::{accepts_move, spec_looks_like_move, UciMove};
use crate::msg::{ov, views, Info, InfoV};
use crate::numbers::{
    fmt_u64, lemma_u64_roundtrip, parse_u32, parse_u64, spec_dec_u64, spec_parse_u32,
    spec_parse_u64,
};
use crate::parse::movevec::{self, MoveVecParseError};
use crate::parse::score::{self, RelScoreParseError};
use crate::parse::tok;
use crate::parse::EolError;
use crate::token::{is_tok, tok_views, PushTokens, Token};
use crate::types::Permille;
use crate::msg::{lemma_views_empty, lemma_views_push};
use crate::parse::movevec::MoveVecParseErrorV;
use crate::parse::score::RelScoreParseErrorV;
use crate::warn::{lemma_concat_assoc, lemma_concat_empty_l, lemma_concat_empty_r, lemma_concat_push, All, Sink};

verus! {

broadcast use {lemma_views_empty, lemma_views_push, lemma_concat_push, lemma_concat_empty_r, lemma_concat_empty_l, lemma_concat_assoc};

/// An error from reading an `info` item.
#[derive(Debug, Clone, PartialEq, Eq)]
pub enum InfoParseError {
    /// The named token is not an `info` keyword.
    UnexpectedToken(String),
    /// The line ended where a value was expected.
    UnexpectedEol(EolError),
    /// The named token is not a valid integer.
    BadInteger(String),
    /// A permille value above 1000 was saturated.
    PermilleTruncated { src_value: u64 },
    /// A move of a run could not be read.
    BadMoveVec(MoveVecParseError),
    /// A score could not be read.
    BadScore(RelScoreParseError),
}

/// The view of an `info`-reading error.
pub enum InfoParseErrorV {
    UnexpectedToken(Seq<char>),
    UnexpectedEol,
    BadInteger(Seq<char>),
    PermilleTruncated { src_value: u64 },
    BadMoveVec(MoveVecParseErrorV),
    BadScore(RelScoreParseErrorV),
}

impl View for InfoParseError {
    type V = InfoParseErrorV;

    open spec fn view(&self) -> InfoParseErrorV {
        match self {
            InfoParseError::UnexpectedToken(t) => InfoParseErrorV::UnexpectedToken(t@),
            InfoParseError::UnexpectedEol(_) => InfoParseErrorV::UnexpectedEol,
            InfoParseError::BadInteger(t) => InfoParseErrorV::BadInteger(t@),
            InfoParseError::PermilleTruncated { src_value } => InfoParseErrorV::PermilleTruncated {
                src_value: *src_value,
            },
            InfoParseError::BadMoveVec(e) => InfoParseErrorV::BadMoveVec(e@),
            InfoParseError::BadScore(e) => InfoParseErrorV::BadScore(e@),
        }
    }
}

/// Move-run warnings, wrapped as `info` warnings.
pub open spec fn wrap_moves(w: Seq<MoveVecParseErrorV>) -> Seq<InfoParseErrorV> {
    w.map_values(|e: MoveVecParseErrorV| InfoParseErrorV::BadMoveVec(e))
}

/// Score warnings, wrapped as `info` warnings.
pub open spec fn wrap_score(w: Seq<RelScoreParseErrorV>) -> Seq<InfoParseErrorV> {
    w.map_values(|e: RelScoreParseErrorV| InfoParseErrorV::BadScore(e))
}

/// What reading one integer-valued token does: consume it and read it, or
/// stop at end of line.
pub open spec fn s_item_u32(ts: Seq<Seq<char>>, i: int) -> (Option<u32>, int, Seq<InfoParseErrorV>) {
    if i >= ts.len() {
        (None::<u32>, i, seq![InfoParseErrorV::UnexpectedEol])
    } else {
        match spec_parse_u32(ts[i]) {
            Some(v) => (Some(v), i + 1, Seq::<InfoParseErrorV>::empty()),
            None => (None::<u32>, i + 1, seq![InfoParseErrorV::BadInteger(ts[i])]),
        }
    }
}

/// As `s_item_u32`, for a 64-bit value.
pub open spec fn s_item_u64(ts: Seq<Seq<char>>, i: int) -> (Option<u64>, int, Seq<InfoParseErrorV>) {
    if i >= ts.len() {
        (None::<u64>, i, seq![InfoParseErrorV::UnexpectedEol])
    } else {
        match spec_parse_u64(ts[i]) {
            Some(v) => (Some(v), i + 1, Seq::<InfoParseErrorV>::empty()),
            None => (None::<u64>, i + 1, seq![InfoParseErrorV::BadInteger(ts[i])]),
        }
    }
}

/// The saturated permille amount of a raw value.
pub open spec fn spec_permille(v: u64) -> u16 {
    if v <= 1000 {
        v as u16
    } else {
        1000u16
    }
}

/// What reading one `info` item does: dispatch on the keyword, then consume
/// the item's value tokens. Unknown keywords fail after being consumed.
pub open spec fn spec_parse(ts: Seq<Seq<char>>, i: int) -> (
    Option<InfoV>,
    int,
    Seq<InfoParseErrorV>,
) {
    if i >= ts.len() {
        (None::<InfoV>, i, seq![InfoParseErrorV::UnexpectedEol])
    } else {
        let kw = ts[i];
        if kw == "depth"@ {
            let (v, j, w) = s_item_u32(ts, i + 1);
            match v {
                Some(x) => (Some(InfoV::Depth(x)), j, w),
                None => (None::<InfoV>, j, w),
            }
        } else if kw == "seldepth"@ {
            let (v, j, w) = s_item_u32(ts, i + 1);
            match v {
                Some(x) => (Some(InfoV::SelDepth(x)), j, w),
                None => (None::<InfoV>, j, w),
            }
        } else if kw == "time"@ {
            let (v, j, w) = s_item_u64(ts, i + 1);
            match v {
                Some(x) => (Some(InfoV::Time(x)), j, w),
                None => (None::<InfoV>, j, w),
            }
        } else if kw == "nodes"@ {
            let (v, j, w) = s_item_u64(ts, i + 1);
            match v {
                Some(x) => (Some(InfoV::Nodes(x)), j, w),
                None => (None::<InfoV>, j, w),
            }
        } else if kw == "pv"@ {
            let (ms, j, w) = movevec::spec_parse_moves(ts, i + 1, true, Seq::empty());
            (Some(InfoV::Pv(ms)), j, wrap_moves(w))
        } else if kw == "multipv"@ {
            let (v, j, w) = s_item_u32(ts, i + 1);
            match v {
                Some(x) => (Some(InfoV::MultiPv(x)), j, w),
                None => (None::<InfoV>, j, w),
            }
        } else if kw == "score"@ {
            let (sc, j, w) = score::spec_parse(ts, i + 1);
            match sc {
                Some(b) => (Some(InfoV::Score(b)), j, wrap_score(w)),
                None => (None::<InfoV>, j, wrap_score(w)),
            }
        } else if kw == "currmove"@ {
            if i + 1 >= ts.len() {
                (None::<InfoV>, i + 1, seq![InfoParseErrorV::UnexpectedEol])
            } else if accepts_move(ts[i + 1]) {
                (Some(InfoV::CurrMove(ts[i + 1])), i + 2, Seq::<InfoParseErrorV>::empty())
            } else {
                (None::<InfoV>, i + 2, seq![InfoParseErrorV::UnexpectedToken(ts[i + 1])])
            }
        } else if kw == "currmovenumber"@ {
            let (v, j, w) = s_item_u32(ts, i + 1);
            match v {
                Some(x) => (Some(InfoV::CurrMoveNumber(x)), j, w),
                None => (None::<InfoV>, j, w),
            }
        } else if kw == "hashfull"@ {
            let (v, j, w) = s_item_u64(ts, i + 1);
            match v {
                Some(x) => (
                    Some(InfoV::HashFull(spec_permille(x))),
                    j,
                    if x > 1000 {
                        seq![InfoParseErrorV::PermilleTruncated { src_value: x }]
                    } else {
                        Seq::<InfoParseErrorV>::empty()
                    },
                ),
                None => (None::<InfoV>, j, w),
            }
        } else if kw == "nps"@ {
            let (v, j, w) = s_item_u64(ts, i + 1);
            match v {
                Some(x) => (Some(InfoV::Nps(x)), j, w),
                None => (None::<InfoV>, j, w),
            }
        } else if kw == "tbhits"@ {
            let (v, j, w) = s_item_u64(ts, i + 1);
            match v {
                Some(x) => (Some(InfoV::TbHits(x)), j, w),
                None => (None::<InfoV>, j, w),
            }
        } else if kw == "sbhits"@ {
            let (v, j, w) = s_item_u64(ts, i + 1);
            match v {
                Some(x) => (Some(InfoV::SbHits(x)), j, w),
                None => (None::<InfoV>, j, w),
            }
        } else if kw == "cpuload"@ {
            let (v, j, w) = s_item_u64(ts, i + 1);
            match v {
                Some(x) => (
                    Some(InfoV::CpuLoad(spec_permille(x))),
                    j,
                    if x > 1000 {
                        seq![InfoParseErrorV::PermilleTruncated { src_value: x }]
                    } else {
                        Seq::<InfoParseErrorV>::empty()
                    },
                ),
                None => (None::<InfoV>, j, w),
            }
        } else if kw == "refutation"@ {
            let (ms, j, w) = movevec::spec_parse_moves(ts, i + 1, true, Seq::empty());
            (Some(InfoV::Refutation(ms)), j, wrap_moves(w))
        } else if kw == "currline"@ {
            let (v, j, w) = s_item_u32(ts, i + 1);
            match v {
                Some(x) => {
                    let (ms, j2, w2) = movevec::spec_parse_moves(ts, j, true, Seq::empty());
                    (Some(InfoV::CurrLine { cpu_num: x, moves: ms }), j2, wrap_moves(w2))
                },
                None => (None::<InfoV>, j, w),
            }
        } else {
            (None::<InfoV>, i + 1, seq![InfoParseErrorV::UnexpectedToken(ts[i])])
        }
    }
}

/// The tokens one `info` item writes.
pub open spec fn spec_fmt_toks(v: InfoV) -> Seq<Seq<char>> {
    match v {
        InfoV::Depth(x) => seq!["depth"@, spec_dec_u64(x as int)],
        InfoV::SelDepth(x) => seq!["seldepth"@, spec_dec_u64(x as int)],
        InfoV::Time(x) => seq!["time"@, spec_dec_u64(x as int)],
        InfoV::Nodes(x) => seq!["nodes"@, spec_dec_u64(x as int)],
        InfoV::Pv(ms) => seq!["pv"@] + ms,
        InfoV::MultiPv(x) => seq!["multipv"@, spec_dec_u64(x as int)],
        InfoV::Score(b) => seq!["score"@] + score::spec_fmt_toks(b),
        InfoV::CurrMove(m) => seq!["currmove"@, m],
        InfoV::CurrMoveNumber(x) => seq!["currmovenumber"@, spec_dec_u64(x as int)],
        InfoV::HashFull(p) => seq!["hashfull"@, spec_dec_u64(p as int)],
        InfoV::Nps(x) => seq!["nps"@, spec_dec_u64(x as int)],
        InfoV::TbHits(x) => seq!["tbhits"@, spec_dec_u64(x as int)],
        InfoV::SbHits(x) => seq!["sbhits"@, spec_dec_u64(x as int)],
        InfoV::CpuLoad(p) => seq!["cpuload"@, spec_dec_u64(p as int)],
        InfoV::Refutation(ms) => seq!["refutation"@] + ms,
        InfoV::CurrLine { cpu_num, moves } => seq!["currline"@, spec_dec_u64(cpu_num as int)]
            + moves,
    }
}

/// A well-formed run of moves for the wire: every move is valid and
/// move-shaped, so the greedy reader takes exactly the run.
pub open spec fn wf_moves(ms: Seq<Seq<char>>) -> bool {
    forall|j: int| 0 <= j < ms.len() ==> accepts_move(#[trigger] ms[j]) && spec_looks_like_move(
        ms[j],
    ) && is_tok(ms[j])
}

/// An `info` item that writing and reading leave unchanged: its move runs
/// are valid and move-shaped, its score well-formed, and its permille
/// amounts within range.
pub open spec fn wf_info(v: InfoV) -> bool {
    match v {
        InfoV::Pv(ms) => wf_moves(ms),
        InfoV::Refutation(ms) => wf_moves(ms),
        InfoV::CurrLine { cpu_num: _, moves } => wf_moves(moves),
        InfoV::Score(b) => score::wf_score(b),
        InfoV::CurrMove(m) => accepts_move(m) && spec_looks_like_move(m) && is_tok(m),
        InfoV::HashFull(p) => p <= 1000,
        InfoV::CpuLoad(p) => p <= 1000,
        _ => true,
    }
}

/// Reads one token as a `u32`; a missing or malformed token is reported.
fn next_u32<S: Sink<InfoParseError>>(toks: &Vec<Token>, i: &mut usize, warn: &mut S) -> (r: Option<
    u32,
>)
    requires
        *old(i) <= toks@.len(),
    ensures
        ({
            let (v, j, w) = s_item_u32(tok_views(toks@), *old(i) as int);
            r == v && *final(i) as int == j && views(final(warn).sunk()) == views(
                old(warn).sunk(),
            ) + w
        }),
        *final(i) <= toks@.len(),
{
    match tok::next(toks, i) {
        Some(t) => match parse_u32(t.as_str()) {
            Some(v) => Some(v),
            None => {
                warn.warn(InfoParseError::BadInteger(t.as_str().to_owned()));
                None
            },
        },
        None => {
            warn.warn(InfoParseError::UnexpectedEol(EolError));
            None
        },
    }
}

/// Reads one token as a `u64`; a missing or malformed token is reported.
fn next_u64<S: Sink<InfoParseError>>(toks: &Vec<Token>, i: &mut usize, warn: &mut S) -> (r: Option<
    u64,
>)
    requires
        *old(i) <= toks@.len(),
    ensures
        ({
            let (v, j, w) = s_item_u64(tok_views(toks@), *old(i) as int);
            r == v && *final(i) as int == j && views(final(warn).sunk()) == views(
                old(warn).sunk(),
            ) + w
        }),
        *final(i) <= toks@.len(),
{
    match tok::next(toks, i) {
        Some(t) => match parse_u64(t.as_str()) {
            Some(v) => Some(v),
            None => {
                warn.warn(InfoParseError::BadInteger(t.as_str().to_owned()));
                None
            },
        },
        None => {
            warn.warn(InfoParseError::UnexpectedEol(EolError));
            None
        },
    }
}

/// Saturates a raw permille value at 1000, reporting truncation exactly when
/// the value exceeds 1000.
fn make_permille<S: Sink<InfoParseError>>(val: u64, warn: &mut S) -> (r: Permille)
    ensures
        r.spec_amount() == spec_permille(val),
        views(final(warn).sunk()) == views(old(warn).sunk()) + (if val > 1000 {
            seq![InfoParseErrorV::PermilleTruncated { src_value: val }]
        } else {
            Seq::<InfoParseErrorV>::empty()
        }),
{
    if val > 1000 {
        warn.warn(InfoParseError::PermilleTruncated { src_value: val });
    }
    Permille::new_truncated(val)
}

/// Reads a run of moves, wrapping each of its warnings.
fn moves_wrapped<S: Sink<InfoParseError>>(toks: &Vec<Token>, i: &mut usize, warn: &mut S) -> (r:
    Vec<UciMove>)
    requires
        *old(i) <= toks@.len(),
    ensures
        ({
            let (ms, j, w) = movevec::spec_parse_moves(
                tok_views(toks@),
                *old(i) as int,
                true,
                Seq::empty(),
            );
            views(r@) == ms && *final(i) as int == j && views(final(warn).sunk()) == views(
                old(warn).sunk(),
            ) + wrap_moves(w)
        }),
        *final(i) <= toks@.len(),
{
    let mut sub: All<MoveVecParseError> = All::new();
    let ms = movevec::parse(toks, i, true, &mut sub);
    let ghost subx = sub.log@;
    let ghost base = views(warn.sunk());
    let ghost mut done: int = 0;
    proof {
        assert(wrap_moves(views(subx)).take(0) =~= Seq::<InfoParseErrorV>::empty());
        assert(base + wrap_moves(views(subx)).take(0) =~= base);
        assert(sub.log@ =~= subx.skip(0));
    }
    while sub.log.len() > 0
        invariant
            0 <= done <= subx.len(),
            sub.log@ == subx.skip(done),
            views(warn.sunk()) == base + wrap_moves(views(subx)).take(done),
        decreases sub.log@.len(),
    {
        let e = sub.log.remove(0);
        proof {
            assert(e == subx[done]);
            assert(subx.skip(done).remove(0) =~= subx.skip(done + 1));
        }
        warn.warn(InfoParseError::BadMoveVec(e));
        proof {
            assert(views(subx)[done] == subx[done]@);
            assert(wrap_moves(views(subx)).take(done + 1) =~= wrap_moves(views(subx)).take(
                done,
            ).push(InfoParseErrorV::BadMoveVec(e@)));
            done = done + 1;
        }
    }
    proof {
        assert(subx.skip(done).len() == 0);
        assert(done == subx.len());
        assert(wrap_moves(views(subx)).take(done) =~= wrap_moves(views(subx)));
        assert(wrap_moves(views(subx)) =~= wrap_moves(
            movevec::spec_parse_moves(tok_views(toks@), *old(i) as int, true, Seq::empty()).2,
        ));
    }
    ms
}

/// Reads one `info` item. A failed item is reported and yields `None`; the
/// tokens it consumed stay consumed.
pub fn parse<S: Sink<InfoParseError>>(toks: &Vec<Token>, i: &mut usize, warn: &mut S) -> (r: Option<
    Info,
>)
    requires
        *old(i) <= toks@.len(),
    ensures
        ({
            let (v, j, w) = spec_parse(tok_views(toks@), *old(i) as int);
            ov(r) == v && *final(i) as int == j && views(final(warn).sunk()) == views(
                old(warn).sunk(),
            ) + w
        }),
        *final(i) <= toks@.len(),
{
    let t = match tok::next(toks, i) {
        Some(t) => t,
        None => {
            warn.warn(InfoParseError::UnexpectedEol(EolError));
            return None;
        },
    };
    if t.is_kw("depth") {
        match next_u32(toks, i, warn) {
            Some(v) => Some(Info::Depth(v)),
            None => None,
        }
    } else if t.is_kw("seldepth") {
        match next_u32(toks, i, warn) {
            Some(v) => Some(Info::SelDepth(v)),
            None => None,
        }
    } else if t.is_kw("time") {
        match next_u64(toks, i, warn) {
            Some(v) => Some(Info::Time(v)),
            None => None,
        }
    } else if t.is_kw("nodes") {
        match next_u64(toks, i, warn) {
            Some(v) => Some(Info::Nodes(v)),
            None => None,
        }
    } else if t.is_kw("pv") {
        Some(Info::Pv(moves_wrapped(toks, i, warn)))
    } else if t.is_kw("multipv") {
        match next_u32(toks, i, warn) {
            Some(v) => Some(Info::MultiPv(v)),
            None => None,
        }
    } else if t.is_kw("score") {
        let mut sub: All<RelScoreParseError> = All::new();
        let sc = score::parse(toks, i, &mut sub);
        let ghost subx = sub.log@;
        let ghost base = views(warn.sunk());
        let ghost mut done: int = 0;
        proof {
            assert(wrap_score(views(subx)).take(0) =~= Seq::<InfoParseErrorV>::empty());
            assert(base + wrap_score(views(subx)).take(0) =~= base);
            assert(sub.log@ =~= subx.skip(0));
        }
        while sub.log.len() > 0
            invariant
                0 <= done <= subx.len(),
                sub.log@ == subx.skip(done),
                views(warn.sunk()) == base + wrap_score(views(subx)).take(done),
            decreases sub.log@.len(),
        {
            let e = sub.log.remove(0);
            proof {
                assert(e == subx[done]);
                assert(subx.skip(done).remove(0) =~= subx.skip(done + 1));
            }
            warn.warn(InfoParseError::BadScore(e));
            proof {
                assert(views(subx)[done] == subx[done]@);
                assert(wrap_score(views(subx)).take(done + 1) =~= wrap_score(views(subx)).take(
                    done,
                ).push(InfoParseErrorV::BadScore(e@)));
                done = done + 1;
            }
        }
        proof {
            assert(subx.skip(done).len() == 0);
            assert(done == subx.len());
            assert(wrap_score(views(subx)).take(done) =~= wrap_score(views(subx)));
            assert(wrap_score(views(subx)) =~= wrap_score(
                score::spec_parse(tok_views(toks@), *old(i) as int + 1).2,
            ));
        }
        match sc {
            Some(b) => Some(Info::Score(b)),
            None => None,
        }
    } else if t.is_kw("currmove") {
        let m = match tok::next(toks, i) {
            Some(m) => m,
            None => {
                warn.warn(InfoParseError::UnexpectedEol(EolError));
                return None;
            },
        };
        match UciMove::new(m.as_str()) {
            Some(mv) => Some(Info::CurrMove(mv)),
            None => {
                warn.warn(InfoParseError::UnexpectedToken(m.as_str().to_owned()));
                None
            },
        }
    } else if t.is_kw("currmovenumber") {
        match next_u32(toks, i, warn) {
            Some(v) => Some(Info::CurrMoveNumber(v)),
            None => None,
        }
    } else if t.is_kw("hashfull") {
        match next_u64(toks, i, warn) {
            Some(v) => Some(Info::HashFull(make_permille(v, warn))),
            None => None,
        }
    } else if t.is_kw("nps") {
        match next_u64(toks, i, warn) {
            Some(v) => Some(Info::Nps(v)),
            None => None,
        }
    } else if t.is_kw("tbhits") {
        match next_u64(toks, i, warn) {
            Some(v) => Some(Info::TbHits(v)),
            None => None,
        }
    } else if t.is_kw("sbhits") {
        match next_u64(toks, i, warn) {
            Some(v) => Some(Info::SbHits(v)),
            None => None,
        }
    } else if t.is_kw("cpuload") {
        match next_u64(toks, i, warn) {
            Some(v) => Some(Info::CpuLoad(make_permille(v, warn))),
            None => None,
        }
    } else if t.is_kw("refutation") {
        Some(Info::Refutation(moves_wrapped(toks, i, warn)))
    } else if t.is_kw("currline") {
        let cpu_num = match next_u32(toks, i, warn) {
            Some(v) => v,
            None => {
                return None;
            },
        };
        let moves = moves_wrapped(toks, i, warn);
        Some(Info::CurrLine { cpu_num, moves })
    } else {
        warn.warn(InfoParseError::UnexpectedToken(t.as_str().to_owned()));
        None
    }
}

/// Writes one `info` item.
pub fn fmt<P: PushTokens>(src: &Info, f: &mut P)
    ensures
        final(f).toks() == old(f).toks() + spec_fmt_toks(src@),
{
    proof {
        reveal_strlit("depth");
        reveal_strlit("seldepth");
        reveal_strlit("time");
        reveal_strlit("nodes");
        reveal_strlit("pv");
        reveal_strlit("multipv");
        reveal_strlit("score");
        reveal_strlit("currmove");
        reveal_strlit("currmovenumber");
        reveal_strlit("hashfull");
        reveal_strlit("nps");
        reveal_strlit("tbhits");
        reveal_strlit("sbhits");
        reveal_strlit("cpuload");
        reveal_strlit("refutation");
        reveal_strlit("currline");
    }
    match src {
        Info::Depth(v) => {
            f.push_kw("depth");
            push_u64(f, *v as u64);
        },
        Info::SelDepth(v) => {
            f.push_kw("seldepth");
            push_u64(f, *v as u64);
        },
        Info::Time(v) => {
            f.push_kw("time");
            push_u64(f, *v);
        },
        Info::Nodes(v) => {
            f.push_kw("nodes");
            push_u64(f, *v);
        },
        Info::Pv(ms) => {
            f.push_kw("pv");
            movevec::fmt(ms, f);
        },
        Info::MultiPv(v) => {
            f.push_kw("multipv");
            push_u64(f, *v as u64);
        },
        Info::Score(b) => {
            f.push_kw("score");
            score::fmt(b, f);
        },
        Info::CurrMove(m) => {
            f.push_kw("currmove");
            proof {
                use_type_invariant(m);
            }
            f.push_kw(m.as_str());
        },
        Info::CurrMoveNumber(v) => {
            f.push_kw("currmovenumber");
            push_u64(f, *v as u64);
        },
        Info::HashFull(p) => {
            f.push_kw("hashfull");
            push_u64(f, p.amount() as u64);
        },
        Info::Nps(v) => {
            f.push_kw("nps");
            push_u64(f, *v);
        },
        Info::TbHits(v) => {
            f.push_kw("tbhits");
            push_u64(f, *v);
        },
        Info::SbHits(v) => {
            f.push_kw("sbhits");
            push_u64(f, *v);
        },
        Info::CpuLoad(p) => {
            f.push_kw("cpuload");
            push_u64(f, p.amount() as u64);
        },
        Info::Refutation(ms) => {
            f.push_kw("refutation");
            movevec::fmt(ms, f);
        },
        Info::CurrLine { cpu_num, moves } => {
            f.push_kw("currline");
            push_u64(f, *cpu_num as u64);
            movevec::fmt(moves, f);
        },
    }
    proof {
        assert(final(f).toks() =~= old(f).toks() + spec_fmt_toks(src@));
    }
}

/// Writes one unsigned value as a decimal token.
fn push_u64<P: PushTokens>(f: &mut P, v: u64)
    ensures
        final(f).toks() == old(f).toks().push(spec_dec_u64(v as int)),
{
    let d = fmt_u64(v);
    proof {
        lemma_u64_roundtrip(v);
    }
    f.push_kw(d.as_str());
}

/// The `info` keywords of equal length are pairwise distinct.
proof fn lemma_info_keywords_distinct()
    ensures
        "depth"@ != "nodes"@,
        "depth"@ != "score"@,
        "nodes"@ != "score"@,
        "seldepth"@ != "currmove"@,
        "seldepth"@ != "hashfull"@,
        "seldepth"@ != "currline"@,
        "currmove"@ != "hashfull"@,
        "currmove"@ != "currline"@,
        "hashfull"@ != "currline"@,
        "multipv"@ != "cpuload"@,
        "tbhits"@ != "sbhits"@,
{
    reveal_strlit("depth");
    reveal_strlit("nodes");
    reveal_strlit("score");
    reveal_strlit("seldepth");
    reveal_strlit("currmove");
    reveal_strlit("hashfull");
    reveal_strlit("currline");
    reveal_strlit("multipv");
    reveal_strlit("cpuload");
    reveal_strlit("tbhits");
    reveal_strlit("sbhits");
    assert("depth"@ != "nodes"@) by {
        if "depth"@ == "nodes"@ {
            assert("depth"@[0] == 'd' && "nodes"@[0] == 'n');
        }
    }
    assert("depth"@ != "score"@) by {
        if "depth"@ == "score"@ {
            assert("depth"@[0] == 'd' && "score"@[0] == 's');
        }
    }
    assert("nodes"@ != "score"@) by {
        if "nodes"@ == "score"@ {
            assert("nodes"@[0] == 'n' && "score"@[0] == 's');
        }
    }
    assert("seldepth"@ != "currmove"@) by {
        if "seldepth"@ == "currmove"@ {
            assert("seldepth"@[0] == 's' && "currmove"@[0] == 'c');
        }
    }
    assert("seldepth"@ != "hashfull"@) by {
        if "seldepth"@ == "hashfull"@ {
            assert("seldepth"@[0] == 's' && "hashfull"@[0] == 'h');
        }
    }
    assert("seldepth"@ != "currline"@) by {
        if "seldepth"@ == "currline"@ {
            assert("seldepth"@[0] == 's' && "currline"@[0] == 'c');
        }
    }
    assert("currmove"@ != "hashfull"@) by {
        if "currmove"@ == "hashfull"@ {
            assert("currmove"@[0] == 'c' && "hashfull"@[0] == 'h');
        }
    }
    assert("currmove"@ != "currline"@) by {
        if "currmove"@ == "currline"@ {
            assert("currmove"@[4] == 'm' && "currline"@[4] == 'l');
        }
    }
    assert("hashfull"@ != "currline"@) by {
        if "hashfull"@ == "currline"@ {
            assert("hashfull"@[0] == 'h' && "currline"@[0] == 'c');
        }
    }
    assert("multipv"@ != "cpuload"@) by {
        if "multipv"@ == "cpuload"@ {
            assert("multipv"@[0] == 'm' && "cpuload"@[0] == 'c');
        }
    }
    assert("tbhits"@ != "sbhits"@) by {
        if "tbhits"@ == "sbhits"@ {
            assert("tbhits"@[0] == 't' && "sbhits"@[0] == 's');
        }
    }
}

/// Reading what writing produced recovers the `info` item, consumes exactly
/// its tokens and reports nothing, provided the token after the item neither
/// looks like a move nor is a stray bound keyword.
pub proof fn lemma_round_trip(v: InfoV, ts: Seq<Seq<char>>, i: int)
    requires
        0 <= i,
        i + spec_fmt_toks(v).len() <= ts.len(),
        ts.subrange(i, i + spec_fmt_toks(v).len() as int) == spec_fmt_toks(v),
        wf_info(v),
        ({
            let e = i + spec_fmt_toks(v).len();
            e == ts.len() || (!spec_looks_like_move(ts[e]) && ts[e] != "lowerbound"@ && ts[e]
                != "upperbound"@)
        }),
    ensures
        spec_parse(ts, i) == (
            Some(v),
            i + spec_fmt_toks(v).len() as int,
            Seq::<InfoParseErrorV>::empty(),
        ),
{
    reveal_strlit("depth");
    reveal_strlit("seldepth");
    reveal_strlit("time");
    reveal_strlit("nodes");
    reveal_strlit("pv");
    reveal_strlit("multipv");
    reveal_strlit("score");
    reveal_strlit("currmove");
    reveal_strlit("currmovenumber");
    reveal_strlit("hashfull");
    reveal_strlit("nps");
    reveal_strlit("tbhits");
    reveal_strlit("sbhits");
    reveal_strlit("cpuload");
    reveal_strlit("refutation");
    reveal_strlit("currline");
    lemma_info_keywords_distinct();
    let ft = spec_fmt_toks(v);
    let e = i + ft.len();
    assert forall|x: int| i <= x < e implies ts[x] == ft[x - i] by {
        assert(ts.subrange(i, e as int)[x - i] == ft[x - i]);
    }
    match v {
        InfoV::Depth(x) => {
            assert(ts[i] == "depth"@);
            lemma_u64_roundtrip(x as u64);
            assert(ts[i + 1] == spec_dec_u64(x as int));
        },
        InfoV::SelDepth(x) => {
            assert(ts[i] == "seldepth"@);
            lemma_u64_roundtrip(x as u64);
        },
        InfoV::Time(x) => {
            assert(ts[i] == "time"@);
            lemma_u64_roundtrip(x);
        },
        InfoV::Nodes(x) => {
            assert(ts[i] == "nodes"@);
            lemma_u64_roundtrip(x);
        },
        InfoV::Pv(ms) => {
            assert(ts[i] == "pv"@);
            assert(ts.subrange(i + 1, i + 1 + ms.len() as int) =~= ms);
            movevec::lemma_round_trip(ms, ts, i + 1, true, Seq::empty());
            assert(Seq::<Seq<char>>::empty() + ms =~= ms);
        },
        InfoV::MultiPv(x) => {
            assert(ts[i] == "multipv"@);
            lemma_u64_roundtrip(x as u64);
        },
        InfoV::Score(b) => {
            assert(ts[i] == "score"@);
            let sft = score::spec_fmt_toks(b);
            assert(ts.subrange(i + 1, i + 1 + sft.len() as int) =~= sft);
            score::lemma_round_trip(b, ts, i + 1);
        },
        InfoV::CurrMove(m) => {
            assert(ts[i] == "currmove"@);
            assert(ts[i + 1] == m);
        },
        InfoV::CurrMoveNumber(x) => {
            assert(ts[i] == "currmovenumber"@);
            lemma_u64_roundtrip(x as u64);
        },
        InfoV::HashFull(p) => {
            assert(ts[i] == "hashfull"@);
            lemma_u64_roundtrip(p as u64);
        },
        InfoV::Nps(x) => {
            assert(ts[i] == "nps"@);
            lemma_u64_roundtrip(x);
        },
        InfoV::TbHits(x) => {
            assert(ts[i] == "tbhits"@);
            lemma_u64_roundtrip(x);
        },
        InfoV::SbHits(x) => {
            assert(ts[i] == "sbhits"@);
            lemma_u64_roundtrip(x);
        },
        InfoV::CpuLoad(p) => {
            assert(ts[i] == "cpuload"@);
            lemma_u64_roundtrip(p as u64);
        },
        InfoV::Refutation(ms) => {
            assert(ts[i] == "refutation"@);
            assert(ts.subrange(i + 1, i + 1 + ms.len() as int) =~= ms);
            movevec::lemma_round_trip(ms, ts, i + 1, true, Seq::empty());
            assert(Seq::<Seq<char>>::empty() + ms =~= ms);
        },
        InfoV::CurrLine { cpu_num, moves } => {
            assert(ts[i] == "currline"@);
            lemma_u64_roundtrip(cpu_num as u64);
            assert(ts[i + 1] == spec_dec_u64(cpu_num as int));
            assert(ts.subrange(i + 2, i + 2 + moves.len() as int) =~= moves);
            movevec::lemma_round_trip(moves, ts, i + 2, true, Seq::empty());
            assert(Seq::<Seq<char>>::empty() + moves =~= moves);
        },
    }
}

/// The first written token of an `info` item is a keyword: it does not look
/// like a move and is no bound keyword.
pub proof fn lemma_info_head_boundary(v: InfoV)
    ensures
        !spec_looks_like_move(spec_fmt_toks(v)[0]),
        spec_fmt_toks(v)[0] != "lowerbound"@,
        spec_fmt_toks(v)[0] != "upperbound"@,
        spec_fmt_toks(v)[0] != "string"@,
        spec_fmt_toks(v).len() >= 1,
{
    reveal_strlit("string");
    reveal_strlit("depth");
    reveal_strlit("seldepth");
    reveal_strlit("time");
    reveal_strlit("nodes");
    reveal_strlit("pv");
    reveal_strlit("multipv");
    reveal_strlit("score");
    reveal_strlit("currmove");
    reveal_strlit("currmovenumber");
    reveal_strlit("hashfull");
    reveal_strlit("nps");
    reveal_strlit("tbhits");
    reveal_strlit("sbhits");
    reveal_strlit("cpuload");
    reveal_strlit("refutation");
    reveal_strlit("currline");
    reveal_strlit("lowerbound");
    reveal_strlit("upperbound");
    let h = spec_fmt_toks(v)[0];
    match v {
        InfoV::Depth(_) => {
            assert(h == "depth"@);
        },
        InfoV::SelDepth(_) => {
            assert(h == "seldepth"@);
        },
        InfoV::Time(_) => {
            assert(h == "time"@);
        },
        InfoV::Nodes(_) => {
            assert(h == "nodes"@);
        },
        InfoV::Pv(_) => {
            assert(h == "pv"@);
        },
        InfoV::MultiPv(_) => {
            assert(h == "multipv"@);
        },
        InfoV::Score(_) => {
            assert(h == "score"@);
        },
        InfoV::CurrMove(_) => {
            assert(h == "currmove"@);
        },
        InfoV::CurrMoveNumber(_) => {
            assert(h == "currmovenumber"@);
        },
        InfoV::HashFull(_) => {
            assert(h == "hashfull"@);
        },
        InfoV::Nps(_) => {
            assert(h == "nps"@);
        },
        InfoV::TbHits(_) => {
            assert(h == "tbhits"@);
            assert(h != "string"@) by {
                if h == "string"@ {
                    assert(h[0] == 't' && "string"@[0] == 's');
                }
            }
        },
        InfoV::SbHits(_) => {
            assert(h == "sbhits"@);
            assert(h != "string"@) by {
                if h == "string"@ {
                    assert(h[1] == 'b' && "string"@[1] == 't');
                }
            }
        },
        InfoV::CpuLoad(_) => {
            assert(h == "cpuload"@);
        },
        InfoV::Refutation(_) => {
            assert(h == "refutation"@);
            assert(h != "lowerbound"@) by {
                if h == "lowerbound"@ {
                    assert(h[0] == 'r' && "lowerbound"@[0] == 'l');
                }
            }
            assert(h != "upperbound"@) by {
                if h == "upperbound"@ {
                    assert(h[0] == 'r' && "upperbound"@[0] == 'u');
                }
            }
        },
        InfoV::CurrLine { .. } => {
            assert(h == "currline"@);
        },
    }
}

/// Reading an `info` item consumes at least one token when any is there, and
/// never runs past the end.
pub proof fn lemma_info_bounds(ts: Seq<Seq<char>>, i: int)
    requires
        0 <= i <= ts.len(),
    ensures
        i < ts.len() ==> i < spec_parse(ts, i).1 <= ts.len(),
        i >= ts.len() ==> spec_parse(ts, i).1 == i,
{
    if i < ts.len() {
        movevec::lemma_moves_bounds(ts, i + 1, true, Seq::empty());
        score::lemma_score_bounds(ts, i + 1);
        let (v, j, w) = s_item_u32(ts, i + 1);
        if i + 1 <= ts.len() && j <= ts.len() {
            movevec::lemma_moves_bounds(ts, j, true, Seq::empty());
        }
    }
}

/// Every token a well-formed `info` item writes is valid.
pub proof fn lemma_fmt_valid(v: InfoV)
    requires
        wf_info(v),
    ensures
        forall|j: int| 0 <= j < spec_fmt_toks(v).len() ==> is_tok(#[trigger] spec_fmt_toks(v)[j]),
{
    reveal_strlit("depth");
    reveal_strlit("seldepth");
    reveal_strlit("time");
    reveal_strlit("nodes");
    reveal_strlit("pv");
    reveal_strlit("multipv");
    reveal_strlit("score");
    reveal_strlit("currmove");
    reveal_strlit("currmovenumber");
    reveal_strlit("hashfull");
    reveal_strlit("nps");
    reveal_strlit("tbhits");
    reveal_strlit("sbhits");
    reveal_strlit("cpuload");
    reveal_strlit("refutation");
    reveal_strlit("currline");
    match v {
        InfoV::Depth(x) => {
            lemma_u64_roundtrip(x as u64);
        },
        InfoV::SelDepth(x) => {
            lemma_u64_roundtrip(x as u64);
        },
        InfoV::Time(x) => {
            lemma_u64_roundtrip(x);
        },
        InfoV::Nodes(x) => {
            lemma_u64_roundtrip(x);
        },
        InfoV::Pv(ms) => {
            crate::token::lemma_valid_concat(seq!["pv"@], ms);
        },
        InfoV::MultiPv(x) => {
            lemma_u64_roundtrip(x as u64);
        },
        InfoV::Score(b) => {
            score::lemma_fmt_valid(b);
            crate::token::lemma_valid_concat(seq!["score"@], score::spec_fmt_toks(b));
        },
        InfoV::CurrMove(_) => {
        },
        InfoV::CurrMoveNumber(x) => {
            lemma_u64_roundtrip(x as u64);
        },
        InfoV::HashFull(p) => {
            lemma_u64_roundtrip(p as u64);
        },
        InfoV::Nps(x) => {
            lemma_u64_roundtrip(x);
        },
        InfoV::TbHits(x) => {
            lemma_u64_roundtrip(x);
        },
        InfoV::SbHits(x) => {
            lemma_u64_roundtrip(x);
        },
        InfoV::CpuLoad(p) => {
            lemma_u64_roundtrip(p as u64);
        },
        InfoV::Refutation(ms) => {
            crate::token::lemma_valid_concat(seq!["refutation"@], ms);
        },
        InfoV::CurrLine { cpu_num, moves } => {
            lemma_u64_roundtrip(cpu_num as u64);
            crate::token::lemma_valid_concat(
                seq!["currline"@, crate::numbers::spec_dec_u64(cpu_num as int)],
                moves,
            );
        },
    }
}

} // verus!
