//! Reading and writing scores: `cp <centipawns>` or `mate <signed moves>`,
//! with an optional trailing `lowerbound` or `upperbound`.

use vstd::prelude::*;

use crate::numbers::{
    lemma_i64_roundtrip, parse_i32, parse_i64, spec_dec_i64, spec_parse_i32, spec_parse_i64,
};
use crate::parse::tok;
use crate::parse::EolError;
use crate::score::{Bound, BoundedRelScore, RelScore};
use crate::token::{is_tok, tok_views, PushTokens, Token};
use crate::msg::{lemma_views_empty, lemma_views_push, views};
use crate::warn::{lemma_concat_assoc, lemma_concat_empty_l, lemma_concat_empty_r, lemma_concat_push, Sink};

verus! {

broadcast use {lemma_views_empty, lemma_views_push, lemma_concat_push, lemma_concat_empty_r, lemma_concat_empty_l, lemma_concat_assoc};

/// An error from reading a score.
#[derive(Debug, Clone, PartialEq, Eq)]
pub enum RelScoreParseError {
    /// The named token opens no score.
    UnexpectedToken(String),
    /// The line ended where a score was expected.
    UnexpectedEol(EolError),
    /// The named token is not a valid integer.
    BadInteger(String),
    /// The given mate distance does not fit the move counter.
    MateTooLarge(i64),
}

/// The view of a score-reading error.
pub enum RelScoreParseErrorV {
    UnexpectedToken(Seq<char>),
    UnexpectedEol,
    BadInteger(Seq<char>),
    MateTooLarge(i64),
}

impl View for RelScoreParseError {
    type V = RelScoreParseErrorV;

    open spec fn view(&self) -> RelScoreParseErrorV {
        match self {
            RelScoreParseError::UnexpectedToken(t) => RelScoreParseErrorV::UnexpectedToken(t@),
            RelScoreParseError::UnexpectedEol(_) => RelScoreParseErrorV::UnexpectedEol,
            RelScoreParseError::BadInteger(t) => RelScoreParseErrorV::BadInteger(t@),
            RelScoreParseError::MateTooLarge(v) => RelScoreParseErrorV::MateTooLarge(*v),
        }
    }
}

/// What reading a bare score does: `cp` followed by an `i32`, or `mate`
/// followed by a signed distance whose magnitude must fit `u32` (positive
/// for a win); anything else fails after consuming one token.
pub open spec fn spec_parse_unbounded(ts: Seq<Seq<char>>, i: int) -> (
    Option<RelScore>,
    int,
    Seq<RelScoreParseErrorV>,
) {
    if i >= ts.len() {
        (None::<RelScore>, i, seq![RelScoreParseErrorV::UnexpectedEol])
    } else if ts[i] == "cp"@ {
        if i + 1 >= ts.len() {
            (None::<RelScore>, i + 1, seq![RelScoreParseErrorV::UnexpectedEol])
        } else {
            match spec_parse_i32(ts[i + 1]) {
                Some(v) => (Some(RelScore::Cp(v)), i + 2, Seq::<RelScoreParseErrorV>::empty()),
                None => (
                    None::<RelScore>,
                    i + 2,
                    seq![RelScoreParseErrorV::BadInteger(ts[i + 1])],
                ),
            }
        }
    } else if ts[i] == "mate"@ {
        if i + 1 >= ts.len() {
            (None::<RelScore>, i + 1, seq![RelScoreParseErrorV::UnexpectedEol])
        } else {
            match spec_parse_i64(ts[i + 1]) {
                Some(v) => if 0 < v <= u32::MAX as i64 {
                    (
                        Some(RelScore::Mate { moves: v as u32, win: true }),
                        i + 2,
                        Seq::<RelScoreParseErrorV>::empty(),
                    )
                } else if -(u32::MAX as i64) <= v <= 0 {
                    (
                        Some(RelScore::Mate { moves: (-v) as u32, win: false }),
                        i + 2,
                        Seq::<RelScoreParseErrorV>::empty(),
                    )
                } else {
                    (None::<RelScore>, i + 2, seq![RelScoreParseErrorV::MateTooLarge(v)])
                },
                None => (
                    None::<RelScore>,
                    i + 2,
                    seq![RelScoreParseErrorV::BadInteger(ts[i + 1])],
                ),
            }
        }
    } else {
        (None::<RelScore>, i + 1, seq![RelScoreParseErrorV::UnexpectedToken(ts[i])])
    }
}

/// What reading a score does: a bare score, then an optional bound keyword;
/// its absence means an exact score.
pub open spec fn spec_parse(ts: Seq<Seq<char>>, i: int) -> (
    Option<BoundedRelScore>,
    int,
    Seq<RelScoreParseErrorV>,
) {
    let (s, j, w) = spec_parse_unbounded(ts, i);
    match s {
        None => (None::<BoundedRelScore>, j, w),
        Some(score) => {
            if j < ts.len() && ts[j] == "lowerbound"@ {
                (Some(BoundedRelScore { score, bound: Bound::Lower }), j + 1, w)
            } else if j < ts.len() && ts[j] == "upperbound"@ {
                (Some(BoundedRelScore { score, bound: Bound::Upper }), j + 1, w)
            } else {
                (Some(BoundedRelScore { score, bound: Bound::Exact }), j, w)
            }
        },
    }
}

/// The tokens a bare score writes.
pub open spec fn spec_fmt_unbounded_toks(s: RelScore) -> Seq<Seq<char>> {
    match s {
        RelScore::Cp(v) => seq!["cp"@, spec_dec_i64(v as int)],
        RelScore::Mate { moves, win } => seq![
            "mate"@,
            spec_dec_i64(
                if win {
                    moves as int
                } else {
                    -(moves as int)
                },
            ),
        ],
    }
}

/// The tokens a score writes: the bare score, then the bound keyword, with
/// an exact score writing none.
pub open spec fn spec_fmt_toks(b: BoundedRelScore) -> Seq<Seq<char>> {
    spec_fmt_unbounded_toks(b.score) + (match b.bound {
        Bound::Lower => seq!["lowerbound"@],
        Bound::Upper => seq!["upperbound"@],
        Bound::Exact => Seq::<Seq<char>>::empty(),
    })
}

/// A score that writing and reading leave unchanged: a mate in zero moves can
/// only be a loss, since the wire writes the distance with the winning sign.
pub open spec fn wf_score(b: BoundedRelScore) -> bool {
    match b.score {
        RelScore::Cp(_) => true,
        RelScore::Mate { moves, win } => moves == 0 ==> !win,
    }
}

/// Reads a bare score.
pub fn parse_unbounded<S: Sink<RelScoreParseError>>(
    toks: &Vec<Token>,
    i: &mut usize,
    warn: &mut S,
) -> (r: Option<RelScore>)
    requires
        *old(i) <= toks@.len(),
    ensures
        ({
            let (v, j, w) = spec_parse_unbounded(tok_views(toks@), *old(i) as int);
            r == v && *final(i) as int == j && views(final(warn).sunk()) == views(
                old(warn).sunk(),
            ) + w
        }),
        *final(i) <= toks@.len(),
{
    let t = match tok::next(toks, i) {
        Some(t) => t,
        None => {
            warn.warn(RelScoreParseError::UnexpectedEol(EolError));
            return None;
        },
    };
    if t.is_kw("cp") {
        let v = match tok::next(toks, i) {
            Some(v) => v,
            None => {
                warn.warn(RelScoreParseError::UnexpectedEol(EolError));
                return None;
            },
        };
        match parse_i32(v.as_str()) {
            Some(value) => Some(RelScore::Cp(value)),
            None => {
                warn.warn(RelScoreParseError::BadInteger(v.as_str().to_owned()));
                None
            },
        }
    } else if t.is_kw("mate") {
        let v = match tok::next(toks, i) {
            Some(v) => v,
            None => {
                warn.warn(RelScoreParseError::UnexpectedEol(EolError));
                return None;
            },
        };
        match parse_i64(v.as_str()) {
            Some(value) => {
                if 0 < value && value <= u32::MAX as i64 {
                    Some(RelScore::Mate { moves: value as u32, win: true })
                } else if -(u32::MAX as i64) <= value && value <= 0 {
                    Some(RelScore::Mate { moves: (-value) as u32, win: false })
                } else {
                    warn.warn(RelScoreParseError::MateTooLarge(value));
                    None
                }
            },
            None => {
                warn.warn(RelScoreParseError::BadInteger(v.as_str().to_owned()));
                None
            },
        }
    } else {
        warn.warn(RelScoreParseError::UnexpectedToken(t.as_str().to_owned()));
        None
    }
}

/// Reads a score with its optional bound.
pub fn parse<S: Sink<RelScoreParseError>>(toks: &Vec<Token>, i: &mut usize, warn: &mut S) -> (r:
    Option<BoundedRelScore>)
    requires
        *old(i) <= toks@.len(),
    ensures
        ({
            let (v, j, w) = spec_parse(tok_views(toks@), *old(i) as int);
            r == v && *final(i) as int == j && views(final(warn).sunk()) == views(
                old(warn).sunk(),
            ) + w
        }),
        *final(i) <= toks@.len(),
{
    let score = match parse_unbounded(toks, i, warn) {
        Some(s) => s,
        None => {
            return None;
        },
    };
    let bound = if *i < toks.len() {
        proof {
            assert(tok_views(toks@)[*i as int] == toks@[*i as int]@);
        }
        let t = &toks[*i];
        if t.is_kw("lowerbound") {
            *i += 1;
            Bound::Lower
        } else if t.is_kw("upperbound") {
            *i += 1;
            Bound::Upper
        } else {
            Bound::Exact
        }
    } else {
        Bound::Exact
    };
    Some(BoundedRelScore { score, bound })
}

/// Writes a bare score as its two tokens.
pub fn fmt_unbounded<P: PushTokens>(src: &RelScore, f: &mut P)
    ensures
        final(f).toks() == old(f).toks() + spec_fmt_unbounded_toks(*src),
{
    proof {
        reveal_strlit("cp");
        reveal_strlit("mate");
    }
    match src {
        RelScore::Cp(v) => {
            f.push_kw("cp");
            let d = crate::numbers::fmt_i64(*v as i64);
            proof {
                crate::numbers::lemma_i64_roundtrip(*v as i64);
            }
            f.push_kw(d.as_str());
        },
        RelScore::Mate { moves, win } => {
            f.push_kw("mate");
            let signed: i64 = if *win {
                *moves as i64
            } else {
                -(*moves as i64)
            };
            let d = crate::numbers::fmt_i64(signed);
            proof {
                crate::numbers::lemma_i64_roundtrip(signed);
            }
            f.push_kw(d.as_str());
        },
    }
    proof {
        assert(final(f).toks() =~= old(f).toks() + spec_fmt_unbounded_toks(*src));
    }
}

/// Writes a score: the bare score, then the bound keyword unless exact.
pub fn fmt<P: PushTokens>(src: &BoundedRelScore, f: &mut P)
    ensures
        final(f).toks() == old(f).toks() + spec_fmt_toks(*src),
{
    proof {
        reveal_strlit("lowerbound");
        reveal_strlit("upperbound");
    }
    fmt_unbounded(&src.score, f);
    match src.bound {
        Bound::Lower => f.push_kw("lowerbound"),
        Bound::Upper => f.push_kw("upperbound"),
        Bound::Exact => {},
    }
    proof {
        assert(final(f).toks() =~= old(f).toks() + spec_fmt_toks(*src));
    }
}

/// Reading what writing produced recovers the score and reports nothing,
/// provided the tokens after it do not begin with a stray bound keyword when
/// the score is exact.
pub proof fn lemma_round_trip(b: BoundedRelScore, ts: Seq<Seq<char>>, i: int)
    requires
        0 <= i,
        i + spec_fmt_toks(b).len() <= ts.len(),
        ts.subrange(i, i + spec_fmt_toks(b).len() as int) == spec_fmt_toks(b),
        wf_score(b),
        b.bound == Bound::Exact ==> (i + spec_fmt_toks(b).len() == ts.len() || (ts[i
            + spec_fmt_toks(b).len()] != "lowerbound"@ && ts[i + spec_fmt_toks(b).len()]
            != "upperbound"@)),
    ensures
        spec_parse(ts, i) == (
            Some(b),
            i + spec_fmt_toks(b).len(),
            Seq::<RelScoreParseErrorV>::empty(),
        ),
{
    reveal_strlit("cp");
    reveal_strlit("mate");
    reveal_strlit("lowerbound");
    reveal_strlit("upperbound");
    let ft = spec_fmt_toks(b);
    let fu = spec_fmt_unbounded_toks(b.score);
    assert(ts[i] == ft[0]);
    assert(ts[i + 1] == ft[1]);
    match b.score {
        RelScore::Cp(v) => {
            assert(ts[i] == "cp"@);
            lemma_i64_roundtrip(v as i64);
            assert(spec_parse_i32(ts[i + 1]) == Some(v));
            assert(spec_parse_unbounded(ts, i) == (Some(b.score), i + 2, Seq::<RelScoreParseErrorV>::empty()));
        },
        RelScore::Mate { moves, win } => {
            assert(ts[i] == "mate"@);
            assert(ts[i] != "cp"@);
            let signed: i64 = if win {
                moves as i64
            } else {
                (-(moves as int)) as i64
            };
            lemma_i64_roundtrip(signed);
            assert(spec_parse_i64(ts[i + 1]) == Some(signed));
            assert(spec_parse_unbounded(ts, i) == (Some(b.score), i + 2, Seq::<RelScoreParseErrorV>::empty()));
        },
    }
    match b.bound {
        Bound::Lower => {
            assert(ft.len() == 3);
            assert(ts[i + 2] == ft[2]);
            assert(ft[2] == "lowerbound"@);
        },
        Bound::Upper => {
            assert(ft.len() == 3);
            assert(ts[i + 2] == ft[2]);
            assert(ft[2] == "upperbound"@);
            assert(ts[i + 2] != "lowerbound"@) by {
                if ts[i + 2] == "lowerbound"@ {
                    assert(ts[i + 2][0] == 'l');
                    assert(ts[i + 2][0] == 'u');
                }
            }
        },
        Bound::Exact => {
        },
    }
}

/// Reading a score consumes at least one token when any is there, and never
/// runs past the end.
pub proof fn lemma_score_bounds(ts: Seq<Seq<char>>, i: int)
    requires
        0 <= i <= ts.len(),
    ensures
        i < ts.len() ==> i < spec_parse(ts, i).1 <= ts.len(),
        i >= ts.len() ==> spec_parse(ts, i).1 == i,
{
}

/// Every token a score writes is valid.
pub proof fn lemma_fmt_valid(b: BoundedRelScore)
    ensures
        forall|j: int| 0 <= j < spec_fmt_toks(b).len() ==> is_tok(#[trigger] spec_fmt_toks(b)[j]),
{
    reveal_strlit("cp");
    reveal_strlit("mate");
    reveal_strlit("lowerbound");
    reveal_strlit("upperbound");
    let fu = spec_fmt_unbounded_toks(b.score);
    assert(forall|j: int| 0 <= j < fu.len() ==> is_tok(#[trigger] fu[j])) by {
        match b.score {
            RelScore::Cp(v) => {
                crate::numbers::lemma_i64_roundtrip(v as i64);
            },
            RelScore::Mate { moves, win } => {
                let signed: i64 = if win {
                    moves as i64
                } else {
                    (-(moves as int)) as i64
                };
                crate::numbers::lemma_i64_roundtrip(signed);
            },
        }
    }
    let bt = (match b.bound {
        Bound::Lower => seq!["lowerbound"@],
        Bound::Upper => seq!["upperbound"@],
        Bound::Exact => Seq::<Seq<char>>::empty(),
    });
    assert(forall|j: int| 0 <= j < bt.len() ==> is_tok(#[trigger] bt[j]));
    crate::token::lemma_valid_concat(fu, bt);
}

} // verus!
