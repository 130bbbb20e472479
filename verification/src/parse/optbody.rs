//! Reading and writing the body of an `option` announcement: its type
//! keyword and the constraints that follow it.

use vstd::prelude::*;

use crate::msg::{ov, views, OptBody, OptBodyV};
use crate::numbers::{lemma_i64_roundtrip, parse_i64, spec_dec_i64, spec_parse_i64};
use crate::parse::tok::{self, lemma_find_exact, spec_find};
use crate::parse::EolError;
use crate::str::{no_tok, OptComboVar, StrError, UciString};
use crate::token::{is_body, is_tok, spec_join, spec_tokenize, tok_views, PushTokens, Token};
use crate::msg::{lemma_views_empty, lemma_views_push};
use crate::warn::{lemma_concat_assoc, lemma_concat_empty_l, lemma_concat_empty_r, lemma_concat_push, Sink};

verus! {

broadcast use {lemma_views_empty, lemma_views_push, lemma_concat_push, lemma_concat_empty_r, lemma_concat_empty_l, lemma_concat_assoc};

/// An error from reading an option body.
#[derive(Debug, Clone, PartialEq, Eq)]
pub enum OptBodyParseError {
    /// The line ended where the body still needed a token.
    UnexpectedEol(EolError),
    /// A token was left after the body was complete.
    ExtraToken(String),
    /// The named token is not an option type.
    UnknownType(String),
    /// The named keyword was expected and something else stood there.
    ExpectedToken(String),
    /// A `check` default must be `true` or `false`.
    ExpectedBool,
    /// The named token is not a valid integer.
    BadInteger(String),
    /// The default combo variant is not a valid variant string.
    BadComboDefaultVar(StrError),
    /// The combo variant at the given position is not a valid variant
    /// string.
    BadComboVar { pos: usize, error: StrError },
}

/// The view of an option-body error.
pub enum OptBodyParseErrorV {
    UnexpectedEol,
    ExtraToken(Seq<char>),
    UnknownType(Seq<char>),
    ExpectedToken(Seq<char>),
    ExpectedBool,
    BadInteger(Seq<char>),
    BadComboDefaultVar(Seq<char>),
    BadComboVar { pos: int, word: Seq<char> },
}

impl View for OptBodyParseError {
    type V = OptBodyParseErrorV;

    open spec fn view(&self) -> OptBodyParseErrorV {
        match self {
            OptBodyParseError::UnexpectedEol(_) => OptBodyParseErrorV::UnexpectedEol,
            OptBodyParseError::ExtraToken(t) => OptBodyParseErrorV::ExtraToken(t@),
            OptBodyParseError::UnknownType(t) => OptBodyParseErrorV::UnknownType(t@),
            OptBodyParseError::ExpectedToken(t) => OptBodyParseErrorV::ExpectedToken(t@),
            OptBodyParseError::ExpectedBool => OptBodyParseErrorV::ExpectedBool,
            OptBodyParseError::BadInteger(t) => OptBodyParseErrorV::BadInteger(t@),
            OptBodyParseError::BadComboDefaultVar(StrError::BadToken(w)) => {
                OptBodyParseErrorV::BadComboDefaultVar(w@)
            },
            OptBodyParseError::BadComboVar { pos, error: StrError::BadToken(w) } => {
                OptBodyParseErrorV::BadComboVar { pos: *pos as int, word: w@ }
            },
        }
    }
}

/// What checking for one keyword does: consume a token and compare, with a
/// warning at end of line or on a different token.
pub open spec fn s_expect(ts: Seq<Seq<char>>, i: int, kw: Seq<char>) -> (
    bool,
    int,
    Seq<OptBodyParseErrorV>,
) {
    if i >= ts.len() {
        (false, i, seq![OptBodyParseErrorV::UnexpectedEol])
    } else if ts[i] == kw {
        (true, i + 1, Seq::<OptBodyParseErrorV>::empty())
    } else {
        (false, i + 1, seq![OptBodyParseErrorV::ExpectedToken(kw)])
    }
}

/// What reading one signed integer token does.
pub open spec fn s_i64(ts: Seq<Seq<char>>, i: int) -> (
    Option<i64>,
    int,
    Seq<OptBodyParseErrorV>,
) {
    if i >= ts.len() {
        (None::<i64>, i, seq![OptBodyParseErrorV::UnexpectedEol])
    } else {
        match spec_parse_i64(ts[i]) {
            Some(v) => (Some(v), i + 1, Seq::<OptBodyParseErrorV>::empty()),
            None => (None::<i64>, i + 1, seq![OptBodyParseErrorV::BadInteger(ts[i])]),
        }
    }
}

/// The texts of the combo variants listed from position `p`, where `p`
/// stands on a `var` keyword or at the end: each group of tokens up to the
/// next `var` is one variant.
pub open spec fn spec_combo_vars(ts: Seq<Seq<char>>, p: int) -> Seq<Seq<char>>
    decreases ts.len() - p when 0 <= p <= ts.len() via spec_combo_vars_dec
{
    if p >= ts.len() {
        Seq::empty()
    } else {
        let q = spec_find(ts, "var"@, p + 1);
        seq![spec_join(ts.subrange(p + 1, q))] + spec_combo_vars(ts, q)
    }
}

#[via_fn]
proof fn spec_combo_vars_dec(ts: Seq<Seq<char>>, p: int) {
    if p < ts.len() {
        tok::lemma_find(ts, "var"@, p + 1);
    }
}

/// What reading the body itself does to the tokens from `i`: dispatch on the
/// type keyword, then the fields in order; the cursor stops where reading
/// stopped.
pub open spec fn spec_parse_inner(ts: Seq<Seq<char>>, i: int) -> (
    Option<OptBodyV>,
    int,
    Seq<OptBodyParseErrorV>,
) {
    if i >= ts.len() {
        (None::<OptBodyV>, i, seq![OptBodyParseErrorV::UnexpectedEol])
    } else if ts[i] == "check"@ {
        let (ok1, j1, w1) = s_expect(ts, i + 1, "default"@);
        if !ok1 {
            (None::<OptBodyV>, j1, w1)
        } else if j1 >= ts.len() {
            (None::<OptBodyV>, j1, seq![OptBodyParseErrorV::UnexpectedEol])
        } else if ts[j1] == "true"@ {
            (Some(OptBodyV::Check(true)), j1 + 1, Seq::<OptBodyParseErrorV>::empty())
        } else if ts[j1] == "false"@ {
            (Some(OptBodyV::Check(false)), j1 + 1, Seq::<OptBodyParseErrorV>::empty())
        } else {
            (None::<OptBodyV>, j1 + 1, seq![OptBodyParseErrorV::ExpectedBool])
        }
    } else if ts[i] == "spin"@ {
        let (ok1, j1, w1) = s_expect(ts, i + 1, "default"@);
        if !ok1 {
            (None::<OptBodyV>, j1, w1)
        } else {
            let (d, j2, w2) = s_i64(ts, j1);
            match d {
                None => (None::<OptBodyV>, j2, w2),
                Some(default) => {
                    let (ok3, j3, w3) = s_expect(ts, j2, "min"@);
                    if !ok3 {
                        (None::<OptBodyV>, j3, w3)
                    } else {
                        let (mn, j4, w4) = s_i64(ts, j3);
                        match mn {
                            None => (None::<OptBodyV>, j4, w4),
                            Some(min) => {
                                let (ok5, j5, w5) = s_expect(ts, j4, "max"@);
                                if !ok5 {
                                    (None::<OptBodyV>, j5, w5)
                                } else {
                                    let (mx, j6, w6) = s_i64(ts, j5);
                                    match mx {
                                        None => (None::<OptBodyV>, j6, w6),
                                        Some(max) => (
                                            Some(OptBodyV::Spin { default, min, max }),
                                            j6,
                                            Seq::<OptBodyParseErrorV>::empty(),
                                        ),
                                    }
                                }
                            },
                        }
                    }
                },
            }
        }
    } else if ts[i] == "combo"@ {
        let (ok1, j1, w1) = s_expect(ts, i + 1, "default"@);
        if !ok1 {
            (None::<OptBodyV>, j1, w1)
        } else {
            let p = spec_find(ts, "var"@, j1);
            (
                Some(
                    OptBodyV::Combo {
                        default: spec_join(ts.subrange(j1, p)),
                        vars: spec_combo_vars(ts, p),
                    },
                ),
                ts.len() as int,
                Seq::<OptBodyParseErrorV>::empty(),
            )
        }
    } else if ts[i] == "button"@ {
        (Some(OptBodyV::Button), i + 1, Seq::<OptBodyParseErrorV>::empty())
    } else if ts[i] == "string"@ {
        let (ok1, j1, w1) = s_expect(ts, i + 1, "default"@);
        if !ok1 {
            (None::<OptBodyV>, j1, w1)
        } else {
            (
                Some(OptBodyV::String(spec_join(ts.subrange(j1, ts.len() as int)))),
                ts.len() as int,
                Seq::<OptBodyParseErrorV>::empty(),
            )
        }
    } else {
        (None::<OptBodyV>, i + 1, seq![OptBodyParseErrorV::UnknownType(ts[i])])
    }
}

/// What reading an option body makes of the tokens from `i` to the end:
/// `check default <bool>`, `spin default <i64> min <i64> max <i64>`,
/// `combo default <variant> (var <variant>)*`, `button`, or
/// `string default <free text>`; anything else fails. A token left after a
/// complete body is reported as extra but does not spoil it.
pub open spec fn spec_parse(ts: Seq<Seq<char>>, i: int) -> (
    Option<OptBodyV>,
    Seq<OptBodyParseErrorV>,
) {
    let (v, j, w) = spec_parse_inner(ts, i);
    if j < ts.len() {
        (v, w + seq![OptBodyParseErrorV::ExtraToken(ts[j])])
    } else {
        (v, w)
    }
}

/// The tokens of the `var` tail of a combo body.
pub open spec fn spec_fmt_vars(vs: Seq<Seq<char>>) -> Seq<Seq<char>>
    decreases vs.len(),
{
    if vs.len() == 0 {
        Seq::empty()
    } else {
        seq!["var"@] + spec_tokenize(vs[0]) + spec_fmt_vars(vs.skip(1))
    }
}

/// Appending one variant appends its `var` group.
pub proof fn lemma_fmt_vars_push(vs: Seq<Seq<char>>, t: Seq<char>)
    ensures
        spec_fmt_vars(vs.push(t)) == spec_fmt_vars(vs) + seq!["var"@] + spec_tokenize(t),
    decreases vs.len(),
{
    if vs.len() == 0 {
        assert(vs.push(t).skip(1) =~= Seq::<Seq<char>>::empty());
        assert(vs.push(t)[0] == t);
        assert(spec_fmt_vars(Seq::<Seq<char>>::empty()) == Seq::<Seq<char>>::empty());
        assert(spec_fmt_vars(vs.push(t)) == seq!["var"@] + spec_tokenize(t) + Seq::<Seq<char>>::empty());
        assert(spec_fmt_vars(vs.push(t)) =~= spec_fmt_vars(vs) + seq!["var"@] + spec_tokenize(t));
    } else {
        assert(vs.push(t).skip(1) =~= vs.skip(1).push(t));
        lemma_fmt_vars_push(vs.skip(1), t);
        assert(vs.push(t)[0] == vs[0]);
        assert(spec_fmt_vars(vs.push(t)) =~= spec_fmt_vars(vs) + seq!["var"@] + spec_tokenize(t));
    }
}

/// The tokens an option body writes.
pub open spec fn spec_fmt_toks(b: OptBodyV) -> Seq<Seq<char>> {
    match b {
        OptBodyV::Check(v) => seq![
            "check"@,
            "default"@,
            if v {
                "true"@
            } else {
                "false"@
            },
        ],
        OptBodyV::Spin { default, min, max } => seq![
            "spin"@,
            "default"@,
            spec_dec_i64(default as int),
            "min"@,
            spec_dec_i64(min as int),
            "max"@,
            spec_dec_i64(max as int),
        ],
        OptBodyV::Combo { default, vars } => seq!["combo"@, "default"@] + spec_tokenize(default)
            + spec_fmt_vars(vars),
        OptBodyV::Button => seq!["button"@],
        OptBodyV::String(s) => seq!["string"@, "default"@] + spec_tokenize(s),
    }
}

/// An option body that writing and reading leave unchanged: its strings are
/// canonical and its combo texts contain no stray `var`.
pub open spec fn wf_optbody(b: OptBodyV) -> bool {
    match b {
        OptBodyV::Check(_) => true,
        OptBodyV::Spin { .. } => true,
        OptBodyV::Combo { default, vars } => is_body(default) && no_tok(
            spec_tokenize(default),
            "var"@,
        ) && (forall|j: int|
            0 <= j < vars.len() ==> is_body(#[trigger] vars[j]) && no_tok(
                spec_tokenize(vars[j]),
                "var"@,
            )),
        OptBodyV::Button => true,
        OptBodyV::String(s) => is_body(s),
    }
}

/// Reads an option body from the tokens at `i` to the end of the list; the
/// cursor always ends at the end. Leftover tokens after a complete body are
/// reported as extra.
pub fn parse<S: Sink<OptBodyParseError>>(toks: &Vec<Token>, i: &mut usize, warn: &mut S) -> (r:
    Option<OptBody>)
    requires
        *old(i) <= toks@.len(),
    ensures
        ({
            let (v, w) = spec_parse(tok_views(toks@), *old(i) as int);
            ov(r) == v && views(final(warn).sunk()) == views(old(warn).sunk()) + w
        }),
        *final(i) == toks@.len(),
{
    let r = parse_inner(toks, i, warn);
    if *i < toks.len() {
        proof {
            assert(tok_views(toks@)[*i as int] == toks@[*i as int]@);
        }
        warn.warn(OptBodyParseError::ExtraToken(toks[*i].as_str().to_owned()));
        *i = toks.len();
    }
    r
}

/// Reads the body itself, leaving the cursor where reading stopped.
fn parse_inner<S: Sink<OptBodyParseError>>(toks: &Vec<Token>, i: &mut usize, warn: &mut S) -> (r:
    Option<OptBody>)
    requires
        *old(i) <= toks@.len(),
    ensures
        ({
            let (v, j, w) = spec_parse_inner(tok_views(toks@), *old(i) as int);
            ov(r) == v && *final(i) as int == j && views(final(warn).sunk()) == views(
                old(warn).sunk(),
            ) + w
        }),
        *final(i) <= toks@.len(),
{
    let ghost ts = tok_views(toks@);
    let t = match tok::next(toks, i) {
        Some(t) => t,
        None => {
            warn.warn(OptBodyParseError::UnexpectedEol(EolError));
            return None;
        },
    };
    if t.is_kw("check") {
        if !expect_default(toks, i, warn) {
            return None;
        }
        let v = match tok::next(toks, i) {
            Some(v) => v,
            None => {
                warn.warn(OptBodyParseError::UnexpectedEol(EolError));
                return None;
            },
        };
        if v.is_kw("true") {
            Some(OptBody::Check(true))
        } else if v.is_kw("false") {
            Some(OptBody::Check(false))
        } else {
            warn.warn(OptBodyParseError::ExpectedBool);
            None
        }
    } else if t.is_kw("spin") {
        if !expect_default(toks, i, warn) {
            return None;
        }
        let default = match next_i64(toks, i, warn) {
            Some(v) => v,
            None => {
                return None;
            },
        };
        if !expect_kw(toks, i, "min", warn) {
            return None;
        }
        let min = match next_i64(toks, i, warn) {
            Some(v) => v,
            None => {
                return None;
            },
        };
        if !expect_kw(toks, i, "max", warn) {
            return None;
        }
        let max = match next_i64(toks, i, warn) {
            Some(v) => v,
            None => {
                return None;
            },
        };
        Some(OptBody::Spin { default, min, max })
    } else if t.is_kw("combo") {
        if !expect_default(toks, i, warn) {
            return None;
        }
        Some(parse_combo(toks, i, warn))
    } else if t.is_kw("button") {
        Some(OptBody::Button)
    } else if t.is_kw("string") {
        if !expect_default(toks, i, warn) {
            return None;
        }
        let rest = tok::clone_range(toks, *i, toks.len());
        *i = toks.len();
        Some(OptBody::String(UciString::from_tokens(&rest)))
    } else {
        warn.warn(OptBodyParseError::UnknownType(t.as_str().to_owned()));
        None
    }
}

/// Reads the `default` keyword; a missing or different token is reported.
fn expect_default<S: Sink<OptBodyParseError>>(toks: &Vec<Token>, i: &mut usize, warn: &mut S) -> (r:
    bool)
    requires
        *old(i) <= toks@.len(),
    ensures
        ({
            let (ok, j, w) = s_expect(tok_views(toks@), *old(i) as int, "default"@);
            r == ok && *final(i) as int == j && views(final(warn).sunk()) == views(
                old(warn).sunk(),
            ) + w
        }),
        *final(i) <= toks@.len(),
{
    expect_kw(toks, i, "default", warn)
}

/// Reads the given keyword; a missing or different token is reported.
fn expect_kw<S: Sink<OptBodyParseError>>(
    toks: &Vec<Token>,
    i: &mut usize,
    kw: &str,
    warn: &mut S,
) -> (r: bool)
    requires
        *old(i) <= toks@.len(),
    ensures
        ({
            let (ok, j, w) = s_expect(tok_views(toks@), *old(i) as int, kw@);
            r == ok && *final(i) as int == j && views(final(warn).sunk()) == views(
                old(warn).sunk(),
            ) + w
        }),
        *final(i) <= toks@.len(),
{
    match tok::next(toks, i) {
        Some(t) => {
            if t.is_kw(kw) {
                true
            } else {
                warn.warn(OptBodyParseError::ExpectedToken(kw.to_owned()));
                false
            }
        },
        None => {
            warn.warn(OptBodyParseError::UnexpectedEol(EolError));
            false
        },
    }
}

/// Reads one token as a signed integer; a missing or malformed token is
/// reported.
fn next_i64<S: Sink<OptBodyParseError>>(toks: &Vec<Token>, i: &mut usize, warn: &mut S) -> (r:
    Option<i64>)
    requires
        *old(i) <= toks@.len(),
    ensures
        ({
            let (v, j, w) = s_i64(tok_views(toks@), *old(i) as int);
            r == v && *final(i) as int == j && views(final(warn).sunk()) == views(
                old(warn).sunk(),
            ) + w
        }),
        *final(i) <= toks@.len(),
{
    match tok::next(toks, i) {
        Some(t) => match parse_i64(t.as_str()) {
            Some(v) => Some(v),
            None => {
                warn.warn(OptBodyParseError::BadInteger(t.as_str().to_owned()));
                None
            },
        },
        None => {
            warn.warn(OptBodyParseError::UnexpectedEol(EolError));
            None
        },
    }
}

/// Reads the combo groups after `combo default`: the default variant, then
/// one variant per `var` keyword, consuming everything to the end.
fn parse_combo<S: Sink<OptBodyParseError>>(toks: &Vec<Token>, i: &mut usize, warn: &mut S) -> (r:
    OptBody)
    requires
        *old(i) <= toks@.len(),
    ensures
        ({
            let ts = tok_views(toks@);
            let p = spec_find(ts, "var"@, *old(i) as int);
            r@ == (OptBodyV::Combo {
                default: spec_join(ts.subrange(*old(i) as int, p)),
                vars: spec_combo_vars(ts, p),
            })
        }),
        *final(i) == toks@.len(),
        views(final(warn).sunk()) == views(old(warn).sunk()),
{
    let ghost ts = tok_views(toks@);
    let ghost p0 = spec_find(ts, "var"@, *old(i) as int);
    let mut p = tok::find_kw(toks, *i, "var");
    let group = tok::clone_range(toks, *i, p);
    let default = match OptComboVar::from_tokens(&group) {
        Ok(d) => d,
        Err(e) => {
            // a group cut off at the first `var` cannot contain `var`
            proof {
                assert(false);
            }
            warn.warn(OptBodyParseError::BadComboDefaultVar(e));
            OptComboVar::default()
        },
    };
    let mut vars: Vec<OptComboVar> = Vec::new();
    proof {
        assert(spec_combo_vars(ts, p0) =~= views(vars@) + spec_combo_vars(ts, p as int));
    }
    while p < toks.len()
        invariant
            *old(i) <= p <= toks@.len(),
            ts == tok_views(toks@),
            p0 == spec_find(ts, "var"@, *old(i) as int),
            p < toks@.len() ==> ts[p as int] == "var"@,
            spec_combo_vars(ts, p0) == views(vars@) + spec_combo_vars(ts, p as int),
            views(warn.sunk()) == views(old(warn).sunk()),
        decreases toks@.len() - p,
    {
        let q = tok::find_kw(toks, p + 1, "var");
        let group = tok::clone_range(toks, p + 1, q);
        proof {
            tok::lemma_find(ts, "var"@, p + 1);
        }
        match OptComboVar::from_tokens(&group) {
            Ok(v) => {
                proof {
                    assert(views(vars@.push(v)) =~= views(vars@).push(v@));
                    assert(views(vars@).push(v@) + spec_combo_vars(ts, q as int) =~= views(vars@)
                        + spec_combo_vars(ts, p as int));
                }
                vars.push(v);
            },
            Err(e) => {
                // a group between two `var` keywords cannot contain `var`
                proof {
                    assert(false);
                }
                warn.warn(OptBodyParseError::BadComboVar { pos: vars.len(), error: e });
            },
        }
        p = q;
    }
    *i = toks.len();
    proof {
        assert(spec_combo_vars(ts, p as int) =~= Seq::<Seq<char>>::empty());
        assert(views(vars@) + spec_combo_vars(ts, p as int) =~= views(vars@));
    }
    OptBody::Combo { default, vars }
}

/// Writes an option body.
pub fn fmt<P: PushTokens>(src: &OptBody, f: &mut P)
    ensures
        final(f).toks() == old(f).toks() + spec_fmt_toks(src@),
{
    proof {
        reveal_strlit("check");
        reveal_strlit("spin");
        reveal_strlit("combo");
        reveal_strlit("button");
        reveal_strlit("string");
        reveal_strlit("default");
        reveal_strlit("min");
        reveal_strlit("max");
        reveal_strlit("true");
        reveal_strlit("false");
        reveal_strlit("var");
    }
    match src {
        OptBody::Check(v) => {
            f.push_kw("check");
            f.push_kw("default");
            if *v {
                f.push_kw("true");
            } else {
                f.push_kw("false");
            }
            proof {
                assert(final(f).toks() =~= old(f).toks() + spec_fmt_toks(src@));
            }
        },
        OptBody::Spin { default, min, max } => {
            f.push_kw("spin");
            f.push_kw("default");
            let d = crate::numbers::fmt_i64(*default);
            proof {
                lemma_i64_roundtrip(*default);
            }
            f.push_kw(d.as_str());
            f.push_kw("min");
            let mn = crate::numbers::fmt_i64(*min);
            proof {
                lemma_i64_roundtrip(*min);
            }
            f.push_kw(mn.as_str());
            f.push_kw("max");
            let mx = crate::numbers::fmt_i64(*max);
            proof {
                lemma_i64_roundtrip(*max);
            }
            f.push_kw(mx.as_str());
            proof {
                assert(final(f).toks() =~= old(f).toks() + spec_fmt_toks(src@));
            }
        },
        OptBody::Combo { default, vars } => {
            f.push_kw("combo");
            f.push_kw("default");
            proof {
                use_type_invariant(default);
            }
            f.push_body(default.as_str());
            let ghost head = old(f).toks() + seq!["combo"@, "default"@] + spec_tokenize(default@);
            proof {
                assert(f.toks() =~= head);
                assert(head + spec_fmt_vars(views(vars@).take(0)) =~= head);
            }
            let mut j: usize = 0;
            while j < vars.len()
                invariant
                    j <= vars@.len(),
                    f.toks() == head + spec_fmt_vars(views(vars@).take(j as int)),
                decreases vars@.len() - j,
            {
                let v = &vars[j];
                proof {
                    reveal_strlit("var");
                    use_type_invariant(v);
                    assert(views(vars@)[j as int] == vars@[j as int]@);
                }
                f.push_kw("var");
                f.push_body(v.as_str());
                proof {
                    lemma_fmt_vars_push(views(vars@).take(j as int), v@);
                    assert(views(vars@).take(j as int).push(v@) =~= views(vars@).take(
                        j as int + 1,
                    ));
                    assert(f.toks() =~= head + spec_fmt_vars(views(vars@).take(j as int + 1)));
                }
                j += 1;
            }
            proof {
                assert(views(vars@).take(vars@.len() as int) =~= views(vars@));
                assert(final(f).toks() =~= old(f).toks() + spec_fmt_toks(src@));
            }
        },
        OptBody::Button => {
            f.push_kw("button");
            proof {
                assert(final(f).toks() =~= old(f).toks() + spec_fmt_toks(src@));
            }
        },
        OptBody::String(s) => {
            f.push_kw("string");
            f.push_kw("default");
            proof {
                use_type_invariant(s);
            }
            f.push_body(s.as_str());
            proof {
                assert(final(f).toks() =~= old(f).toks() + spec_fmt_toks(src@));
            }
        },
    }
}

/// Reading a written combo tail from its starting position recovers the
/// variant texts.
proof fn lemma_combo_vars_round(vs: Seq<Seq<char>>, ts: Seq<Seq<char>>, p: int)
    requires
        0 <= p <= ts.len(),
        ts.subrange(p, ts.len() as int) == spec_fmt_vars(vs),
        forall|j: int| 0 <= j < vs.len() ==> is_body(#[trigger] vs[j]) && no_tok(
            spec_tokenize(vs[j]),
            "var"@,
        ),
    ensures
        spec_combo_vars(ts, p) == vs,
    decreases vs.len(),
{
    let fv = spec_fmt_vars(vs);
    assert forall|x: int| p <= x < ts.len() implies ts[x] == fv[x - p] by {
        assert(ts.subrange(p, ts.len() as int)[x - p] == fv[x - p]);
    }
    if vs.len() == 0 {
        assert(spec_combo_vars(ts, p) =~= vs);
    } else {
        let t0 = spec_tokenize(vs[0]);
        assert(fv == seq!["var"@] + t0 + spec_fmt_vars(vs.skip(1)));
        assert(ts.len() - p == fv.len());
        assert(ts[p] == fv[0]);
        assert(fv[0] == "var"@);
        let k = p + 1 + t0.len();
        assert forall|x: int| p + 1 <= x < k implies ts[x] == t0[x - p - 1] by {
            assert(ts[x] == fv[x - p]);
            assert(fv[x - p] == t0[x - p - 1]);
        }
        assert(forall|x: int| p + 1 <= x < k ==> ts[x] != "var"@);
        assert(k == ts.len() || ts[k] == "var"@) by {
            if k < ts.len() {
                assert(ts[k] == fv[k - p]);
                assert(fv[k - p] == spec_fmt_vars(vs.skip(1))[0]);
            }
        }
        lemma_find_exact(ts, "var"@, p + 1, k);
        assert(ts.subrange(p + 1, k) =~= t0);
        crate::token::lemma_tokenize_tokens(vs[0]);
        crate::token::lemma_tokenize_join(t0);
        assert(spec_join(t0) == vs[0]);
        assert forall|y: int| 0 <= y < ts.len() - k implies ts.subrange(k, ts.len() as int)[y]
            == spec_fmt_vars(vs.skip(1))[y] by {
            assert(ts[k + y] == fv[k + y - p]);
            assert(fv[k + y - p] == spec_fmt_vars(vs.skip(1))[y]);
        }
        assert(ts.subrange(k, ts.len() as int) =~= spec_fmt_vars(vs.skip(1)));
        lemma_combo_vars_round(vs.skip(1), ts, k);
        assert(spec_combo_vars(ts, p) =~= vs);
    }
}

/// Reading what writing produced recovers the option body and reports
/// nothing, when the body's strings are canonical and free of stray
/// keywords; the written tokens make up the whole remainder of the line.
#[verifier::rlimit(100)]
#[verifier::spinoff_prover]
pub proof fn lemma_round_trip(b: OptBodyV, ts: Seq<Seq<char>>, i: int)
    requires
        0 <= i,
        ts.len() == i + spec_fmt_toks(b).len(),
        ts.subrange(i, ts.len() as int) == spec_fmt_toks(b),
        wf_optbody(b),
    ensures
        spec_parse(ts, i) == (Some(b), Seq::<OptBodyParseErrorV>::empty()),
{
    reveal_strlit("check");
    reveal_strlit("spin");
    reveal_strlit("combo");
    reveal_strlit("button");
    reveal_strlit("string");
    reveal_strlit("default");
    reveal_strlit("min");
    reveal_strlit("max");
    reveal_strlit("true");
    reveal_strlit("false");
    reveal_strlit("var");
    let ft = spec_fmt_toks(b);
    assert forall|x: int| i <= x < ts.len() implies ts[x] == ft[x - i] by {
        assert(ts.subrange(i, ts.len() as int)[x - i] == ft[x - i]);
    }
    lemma_keywords_distinct();
    match b {
        OptBodyV::Check(v) => {
            assert(ts[i] == "check"@);
            assert(ts[i + 1] == "default"@);
            if v {
                assert(ts[i + 2] == "true"@);
            } else {
                assert(ts[i + 2] == "false"@);
                assert(ts[i + 2] != "true"@) by {
                    if ts[i + 2] == "true"@ {
                        assert("false"@.len() == 5);
                        assert("true"@.len() == 4);
                    }
                }
            }
        },
        OptBodyV::Spin { default, min, max } => {
            assert(ts[i] == "spin"@);
            assert(ts[i + 1] == "default"@);
            lemma_i64_roundtrip(default);
            lemma_i64_roundtrip(min);
            lemma_i64_roundtrip(max);
            assert(ts[i + 2] == spec_dec_i64(default as int));
            assert(ts[i + 3] == "min"@);
            assert(ts[i + 4] == spec_dec_i64(min as int));
            assert(ts[i + 5] == "max"@);
            assert(ts[i + 6] == spec_dec_i64(max as int));
        },
        OptBodyV::Combo { default, vars } => {
            assert(ft[0] == "combo"@);
            assert(ft[1] == "default"@);
            assert(ts[i] == "combo"@);
            assert(ts[i + 1] == "default"@);
            let t0 = spec_tokenize(default);
            let k = i + 2 + t0.len();
            assert forall|x: int| i + 2 <= x < k implies ts[x] == t0[x - i - 2] by {
                assert(ts[x] == ft[x - i]);
                assert(ft[x - i] == t0[x - i - 2]);
            }
            assert(forall|x: int| i + 2 <= x < k ==> ts[x] != "var"@);
            assert(k == ts.len() || ts[k] == "var"@) by {
                if k < ts.len() {
                    assert(ts[k] == ft[k - i]);
                    assert(ft[k - i] == spec_fmt_vars(vars)[0]);
                }
            }
            lemma_find_exact(ts, "var"@, i + 2, k);
            assert(ts.subrange(i + 2, k) =~= t0);
            crate::token::lemma_tokenize_tokens(default);
            crate::token::lemma_tokenize_join(spec_tokenize(default));
            assert forall|y: int| 0 <= y < ts.len() - k implies ts.subrange(k, ts.len() as int)[y]
                == spec_fmt_vars(vars)[y] by {
                assert(ts[k + y] == ft[k + y - i]);
                assert(ft[k + y - i] == spec_fmt_vars(vars)[y]);
            }
            assert(ts.subrange(k, ts.len() as int) =~= spec_fmt_vars(vars));
            lemma_combo_vars_round(vars, ts, k);
        },
        OptBodyV::Button => {
            assert(ts[i] == "button"@);
        },
        OptBodyV::String(s) => {
            assert(ft[0] == "string"@);
            assert(ft[1] == "default"@);
            assert(ts[i] == "string"@);
            assert(ts[i + 1] == "default"@);
            crate::token::lemma_tokenize_tokens(s);
            crate::token::lemma_tokenize_join(spec_tokenize(s));
            assert forall|y: int| 0 <= y < ts.len() - i - 2 implies ts.subrange(
                i + 2,
                ts.len() as int,
            )[y] == spec_tokenize(s)[y] by {
                assert(ts[i + 2 + y] == ft[y + 2]);
                assert(ft[y + 2] == spec_tokenize(s)[y]);
            }
            assert(ts.subrange(i + 2, ts.len() as int) =~= spec_tokenize(s));
        },
    }
}

/// The five option-type keywords are pairwise distinct.
proof fn lemma_keywords_distinct()
    ensures
        "check"@ != "spin"@,
        "check"@ != "combo"@,
        "check"@ != "button"@,
        "check"@ != "string"@,
        "spin"@ != "combo"@,
        "spin"@ != "button"@,
        "spin"@ != "string"@,
        "combo"@ != "button"@,
        "combo"@ != "string"@,
        "button"@ != "string"@,
{
    reveal_strlit("check");
    reveal_strlit("spin");
    reveal_strlit("combo");
    reveal_strlit("button");
    reveal_strlit("string");
    assert("check"@.len() == 5 && "spin"@.len() == 4 && "combo"@.len() == 5 && "button"@.len() == 6
        && "string"@.len() == 6);
    assert("check"@ != "combo"@) by {
        if "check"@ == "combo"@ {
            assert("check"@[1] == 'h' && "combo"@[1] == 'o');
        }
    }
    assert("button"@ != "string"@) by {
        if "button"@ == "string"@ {
            assert("button"@[0] == 'b' && "string"@[0] == 's');
        }
    }
}

/// Every token of a written combo tail is valid.
proof fn lemma_fmt_vars_valid(vs: Seq<Seq<char>>)
    requires
        forall|j: int| 0 <= j < vs.len() ==> is_body(#[trigger] vs[j]),
    ensures
        forall|j: int| 0 <= j < spec_fmt_vars(vs).len() ==> is_tok(#[trigger] spec_fmt_vars(vs)[j]),
    decreases vs.len(),
{
    reveal_strlit("var");
    if vs.len() > 0 {
        lemma_fmt_vars_valid(vs.skip(1));
        crate::token::lemma_tokenize_tokens(vs[0]);
        crate::token::lemma_valid_concat(seq!["var"@], spec_tokenize(vs[0]));
        crate::token::lemma_valid_concat(
            seq!["var"@] + spec_tokenize(vs[0]),
            spec_fmt_vars(vs.skip(1)),
        );
    }
}

/// Every token a well-formed option body writes is valid.
pub proof fn lemma_fmt_valid(b: OptBodyV)
    requires
        wf_optbody(b),
    ensures
        forall|j: int| 0 <= j < spec_fmt_toks(b).len() ==> is_tok(#[trigger] spec_fmt_toks(b)[j]),
{
    reveal_strlit("check");
    reveal_strlit("spin");
    reveal_strlit("combo");
    reveal_strlit("button");
    reveal_strlit("string");
    reveal_strlit("default");
    reveal_strlit("min");
    reveal_strlit("max");
    reveal_strlit("true");
    reveal_strlit("false");
    match b {
        OptBodyV::Check(_) => {
        },
        OptBodyV::Spin { default, min, max } => {
            lemma_i64_roundtrip(default);
            lemma_i64_roundtrip(min);
            lemma_i64_roundtrip(max);
        },
        OptBodyV::Combo { default, vars } => {
            crate::token::lemma_tokenize_tokens(default);
            lemma_fmt_vars_valid(vars);
            crate::token::lemma_valid_concat(seq!["combo"@, "default"@], spec_tokenize(default));
            crate::token::lemma_valid_concat(
                seq!["combo"@, "default"@] + spec_tokenize(default),
                spec_fmt_vars(vars),
            );
        },
        OptBodyV::Button => {
        },
        OptBodyV::String(s) => {
            crate::token::lemma_tokenize_tokens(s);
            crate::token::lemma_valid_concat(seq!["string"@, "default"@], spec_tokenize(s));
        },
    }
}

} // verus!
