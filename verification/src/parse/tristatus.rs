//! Reading and writing the three-way status of `copyprotection` and
//! `registration` reports: `ok`, `checking` or `error`.

use vstd::prelude::*;

use crate::parse::tok;
use crate::parse::EolError;
use crate::token::{is_tok, tok_views, PushTokens, Token};
use crate::types::TriStatus;
use crate::msg::{lemma_views_empty, lemma_views_push, views};
use crate::warn::{lemma_concat_assoc, lemma_concat_empty_l, lemma_concat_empty_r, lemma_concat_push, Sink};

verus! {

broadcast use {lemma_views_empty, lemma_views_push, lemma_concat_push, lemma_concat_empty_r, lemma_concat_empty_l, lemma_concat_assoc};

/// An error from reading a status.
#[derive(Debug, Clone, PartialEq, Eq)]
pub enum TriStatusParseError {
    /// The line ended where a status was expected.
    UnexpectedEol(EolError),
    /// The named token is not a status.
    UnexpectedToken(String),
}

/// The view of a status-reading error.
pub enum TriStatusParseErrorV {
    UnexpectedEol,
    UnexpectedToken(Seq<char>),
}

impl View for TriStatusParseError {
    type V = TriStatusParseErrorV;

    open spec fn view(&self) -> TriStatusParseErrorV {
        match self {
            TriStatusParseError::UnexpectedEol(_) => TriStatusParseErrorV::UnexpectedEol,
            TriStatusParseError::UnexpectedToken(t) => TriStatusParseErrorV::UnexpectedToken(t@),
        }
    }
}

/// What reading a status does: consume one token; `ok`, `checking` and
/// `error` give the statuses, anything else (and end of line) fails with the
/// listed warning.
pub open spec fn spec_parse(ts: Seq<Seq<char>>, i: int) -> (
    Option<TriStatus>,
    int,
    Seq<TriStatusParseErrorV>,
) {
    if i >= ts.len() {
        (None::<TriStatus>, i, seq![TriStatusParseErrorV::UnexpectedEol])
    } else if ts[i] == "ok"@ {
        (Some(TriStatus::Okay), i + 1, Seq::<TriStatusParseErrorV>::empty())
    } else if ts[i] == "checking"@ {
        (Some(TriStatus::Checking), i + 1, Seq::<TriStatusParseErrorV>::empty())
    } else if ts[i] == "error"@ {
        (Some(TriStatus::Error), i + 1, Seq::<TriStatusParseErrorV>::empty())
    } else {
        (
            None::<TriStatus>,
            i + 1,
            seq![TriStatusParseErrorV::UnexpectedToken(ts[i])],
        )
    }
}

/// The one token a status writes.
pub open spec fn spec_fmt(s: TriStatus) -> Seq<Seq<char>> {
    match s {
        TriStatus::Okay => seq!["ok"@],
        TriStatus::Checking => seq!["checking"@],
        TriStatus::Error => seq!["error"@],
    }
}

/// Reads a status token. A missing or unrecognized token is reported to the
/// sink and yields `None`.
pub fn parse<S: Sink<TriStatusParseError>>(toks: &Vec<Token>, i: &mut usize, warn: &mut S) -> (r:
    Option<TriStatus>)
    requires
        *old(i) <= toks@.len(),
    ensures
        ({
            let (v, j, w) = spec_parse(tok_views(toks@), *old(i) as int);
            r == v && *final(i) as int == j && views(final(warn).sunk()) == views(
                old(warn).sunk(),
            ) + w
        }),
        *final(i) <= toks@.len(),
{
    match tok::next(toks, i) {
        None => {
            warn.warn(TriStatusParseError::UnexpectedEol(EolError));
            None
        },
        Some(t) => {
            if t.is_kw("ok") {
                Some(TriStatus::Okay)
            } else if t.is_kw("checking") {
                Some(TriStatus::Checking)
            } else if t.is_kw("error") {
                Some(TriStatus::Error)
            } else {
                warn.warn(TriStatusParseError::UnexpectedToken(t.as_str().to_owned()));
                None
            }
        },
    }
}

/// Writes a status as its one token.
pub fn fmt<P: PushTokens>(src: &TriStatus, f: &mut P)
    ensures
        final(f).toks() == old(f).toks() + spec_fmt(*src),
{
    proof {
        reveal_strlit("ok");
        reveal_strlit("checking");
        reveal_strlit("error");
    }
    match src {
        TriStatus::Okay => f.push_kw("ok"),
        TriStatus::Checking => f.push_kw("checking"),
        TriStatus::Error => f.push_kw("error"),
    }
    proof {
        assert(final(f).toks() =~= old(f).toks() + spec_fmt(*src));
    }
}

/// Reading what writing produced recovers the status, consumes exactly its
/// one token, and reports nothing.
pub proof fn lemma_round_trip(s: TriStatus, ts: Seq<Seq<char>>, i: int)
    requires
        0 <= i,
        i + 1 <= ts.len(),
        ts[i] == spec_fmt(s)[0],
    ensures
        spec_parse(ts, i) == (Some(s), i + 1, Seq::<TriStatusParseErrorV>::empty()),
{
    reveal_strlit("ok");
    reveal_strlit("checking");
    reveal_strlit("error");
    match s {
        TriStatus::Okay => {
            assert(ts[i] == "ok"@);
        },
        TriStatus::Checking => {
            assert(ts[i] == "checking"@);
            assert(ts[i] != "ok"@);
        },
        TriStatus::Error => {
            assert(ts[i] == "error"@);
            assert(ts[i] != "ok"@);
            assert(ts[i] != "checking"@);
        },
    }
}

/// The one token a status writes is valid.
pub proof fn lemma_fmt_valid(s: TriStatus)
    ensures
        forall|j: int| 0 <= j < spec_fmt(s).len() ==> is_tok(#[trigger] spec_fmt(s)[j]),
{
    reveal_strlit("ok");
    reveal_strlit("checking");
    reveal_strlit("error");
}

} // verus!
