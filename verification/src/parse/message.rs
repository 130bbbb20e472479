//! Reading and writing messages from the engine to the GUI: the top-level
//! keyword dispatch and each message's payload.

use vstd::prelude::*;

use crate::chess::{accepts_move, UciMove};
use crate::msg::{lemma_views_push, ov, views, Id, Info, InfoV, Message, MessageV};
use crate::parse::info::{self, InfoParseError};
use crate::parse::optbody::{self, OptBodyParseError};
use crate::parse::tok::{self, spec_find};
use crate::parse::tristatus::{self, TriStatusParseError};
use crate::parse::EolError;
use crate::str::{no_tok, OptName, StrError, UciString};
use crate::token::{spec_join, spec_tokenize, tok_views, PushTokens, Token};
use crate::msg::lemma_views_empty;
use crate::parse::info::InfoParseErrorV;
use crate::parse::optbody::OptBodyParseErrorV;
use crate::parse::tristatus::TriStatusParseErrorV;
use crate::warn::{
    lemma_concat_assoc, lemma_concat_empty_l, lemma_concat_empty_r, lemma_concat_push, All, Sink,
};

verus! {

broadcast use {lemma_views_empty, lemma_views_push, lemma_concat_push, lemma_concat_empty_r, lemma_concat_empty_l, lemma_concat_assoc};

/// An error from reading a message line.
#[derive(Debug, Clone, PartialEq, Eq)]
pub enum MessageParseError {
    /// The named token was not understood where it stood.
    UnexpectedToken(String),
    /// A token was left after the message was complete.
    ExtraToken(String),
    /// The line ended where the message still needed a token.
    UnexpectedEol(EolError),
    /// The best move could not be read; the null move is assumed.
    InvalidBestmove(String),
    /// The ponder move could not be read.
    InvalidPonder(String),
    /// The copy-protection status could not be read.
    InvalidCopyProtection(TriStatusParseError),
    /// The registration status could not be read.
    InvalidRegistration(TriStatusParseError),
    /// The `info` item at the given position could not be read.
    BadInfo { pos: usize, error: InfoParseError },
    /// `option` without the `name` keyword.
    OptionNoName,
    /// `option` without the `type` keyword.
    OptionNoType,
    /// The option name is not a valid name string.
    OptionBadName(StrError),
    /// The option body could not be read.
    OptionBadBody(OptBodyParseError),
}

/// The view of a message-reading error.
pub enum MessageParseErrorV {
    UnexpectedToken(Seq<char>),
    ExtraToken(Seq<char>),
    UnexpectedEol,
    InvalidBestmove(Seq<char>),
    InvalidPonder(Seq<char>),
    InvalidCopyProtection(TriStatusParseErrorV),
    InvalidRegistration(TriStatusParseErrorV),
    BadInfo { pos: int, error: InfoParseErrorV },
    OptionNoName,
    OptionNoType,
    OptionBadName(Seq<char>),
    OptionBadBody(OptBodyParseErrorV),
}

impl View for MessageParseError {
    type V = MessageParseErrorV;

    open spec fn view(&self) -> MessageParseErrorV {
        match self {
            MessageParseError::UnexpectedToken(t) => MessageParseErrorV::UnexpectedToken(t@),
            MessageParseError::ExtraToken(t) => MessageParseErrorV::ExtraToken(t@),
            MessageParseError::UnexpectedEol(_) => MessageParseErrorV::UnexpectedEol,
            MessageParseError::InvalidBestmove(t) => MessageParseErrorV::InvalidBestmove(t@),
            MessageParseError::InvalidPonder(t) => MessageParseErrorV::InvalidPonder(t@),
            MessageParseError::InvalidCopyProtection(e) => {
                MessageParseErrorV::InvalidCopyProtection(e@)
            },
            MessageParseError::InvalidRegistration(e) => MessageParseErrorV::InvalidRegistration(
                e@,
            ),
            MessageParseError::BadInfo { pos, error } => MessageParseErrorV::BadInfo {
                pos: *pos as int,
                error: error@,
            },
            MessageParseError::OptionNoName => MessageParseErrorV::OptionNoName,
            MessageParseError::OptionNoType => MessageParseErrorV::OptionNoType,
            MessageParseError::OptionBadName(StrError::BadToken(w)) => {
                MessageParseErrorV::OptionBadName(w@)
            },
            MessageParseError::OptionBadBody(e) => MessageParseErrorV::OptionBadBody(e@),
        }
    }
}

/// Copy-protection status warnings, wrapped as message warnings.
pub open spec fn wrap_copy(w: Seq<TriStatusParseErrorV>) -> Seq<MessageParseErrorV> {
    w.map_values(|e: TriStatusParseErrorV| MessageParseErrorV::InvalidCopyProtection(e))
}

/// Registration status warnings, wrapped as message warnings.
pub open spec fn wrap_reg(w: Seq<TriStatusParseErrorV>) -> Seq<MessageParseErrorV> {
    w.map_values(|e: TriStatusParseErrorV| MessageParseErrorV::InvalidRegistration(e))
}

/// One item's warnings, wrapped as message warnings at the item's position.
pub open spec fn wrap_info(w: Seq<InfoParseErrorV>, pos: int) -> Seq<MessageParseErrorV> {
    w.map_values(|e: InfoParseErrorV| MessageParseErrorV::BadInfo { pos, error: e })
}

/// Option-body warnings, wrapped as message warnings.
pub open spec fn wrap_body(w: Seq<OptBodyParseErrorV>) -> Seq<MessageParseErrorV> {
    w.map_values(|e: OptBodyParseErrorV| MessageParseErrorV::OptionBadBody(e))
}

/// What reading the items of an `info` line does from position `i`, having
/// gathered `acc`: a `string` keyword takes the rest of the line as free
/// text; otherwise items are read one by one, failed items being dropped and
/// their warnings wrapped with the item's position.
pub open spec fn spec_info_loop(ts: Seq<Seq<char>>, i: int, acc: Seq<InfoV>) -> (
    Seq<InfoV>,
    Option<Seq<char>>,
    Seq<MessageParseErrorV>,
)
    decreases ts.len() - i when 0 <= i <= ts.len() via spec_info_loop_dec
{
    if i >= ts.len() {
        (acc, None::<Seq<char>>, Seq::<MessageParseErrorV>::empty())
    } else if ts[i] == "string"@ {
        (
            acc,
            Some(spec_join(ts.subrange(i + 1, ts.len() as int))),
            Seq::<MessageParseErrorV>::empty(),
        )
    } else {
        let (v, j, w) = info::spec_parse(ts, i);
        let (items, string, w2) = spec_info_loop(
            ts,
            j,
            match v {
                Some(x) => acc.push(x),
                None => acc,
            },
        );
        (items, string, wrap_info(w, acc.len() as int) + w2)
    }
}

#[via_fn]
proof fn spec_info_loop_dec(ts: Seq<Seq<char>>, i: int, acc: Seq<InfoV>) {
    if i < ts.len() {
        info::lemma_info_bounds(ts, i);
    }
}

/// What reading the optional `ponder` tail of a `bestmove` does.
pub open spec fn s_ponder(ts: Seq<Seq<char>>, i: int) -> (
    Option<Seq<char>>,
    int,
    Seq<MessageParseErrorV>,
) {
    if i >= ts.len() {
        (None::<Seq<char>>, i, Seq::<MessageParseErrorV>::empty())
    } else if ts[i] != "ponder"@ {
        (None::<Seq<char>>, i + 1, seq![MessageParseErrorV::UnexpectedToken(ts[i])])
    } else if i + 1 >= ts.len() {
        (None::<Seq<char>>, i + 1, seq![MessageParseErrorV::UnexpectedEol])
    } else if accepts_move(ts[i + 1]) {
        (Some(ts[i + 1]), i + 2, Seq::<MessageParseErrorV>::empty())
    } else {
        (None::<Seq<char>>, i + 2, seq![MessageParseErrorV::InvalidPonder(ts[i + 1])])
    }
}

/// What reading a message does to the tokens from `i` on, before the check
/// for leftovers: unknown leading tokens are skipped with a warning; the
/// first recognized keyword decides the message and consumes its payload.
pub open spec fn spec_parse_inner(ts: Seq<Seq<char>>, i: int) -> (
    Option<MessageV>,
    int,
    Seq<MessageParseErrorV>,
)
    decreases ts.len() - i when 0 <= i <= ts.len()
{
    if i >= ts.len() {
        (None::<MessageV>, i, Seq::<MessageParseErrorV>::empty())
    } else {
        let kw = ts[i];
        if kw == "id"@ {
            if i + 1 >= ts.len() {
                (None::<MessageV>, i + 1, seq![MessageParseErrorV::UnexpectedEol])
            } else if ts[i + 1] == "name"@ {
                (
                    Some(
                        MessageV::Id(
                            crate::msg::IdV::Name(spec_join(ts.subrange(i + 2, ts.len() as int))),
                        ),
                    ),
                    ts.len() as int,
                    Seq::<MessageParseErrorV>::empty(),
                )
            } else if ts[i + 1] == "author"@ {
                (
                    Some(
                        MessageV::Id(
                            crate::msg::IdV::Author(
                                spec_join(ts.subrange(i + 2, ts.len() as int)),
                            ),
                        ),
                    ),
                    ts.len() as int,
                    Seq::<MessageParseErrorV>::empty(),
                )
            } else {
                (
                    None::<MessageV>,
                    i + 2,
                    seq![MessageParseErrorV::UnexpectedToken(ts[i + 1])],
                )
            }
        } else if kw == "uciok"@ {
            (Some(MessageV::UciOk), i + 1, Seq::<MessageParseErrorV>::empty())
        } else if kw == "readyok"@ {
            (Some(MessageV::ReadyOk), i + 1, Seq::<MessageParseErrorV>::empty())
        } else if kw == "bestmove"@ {
            if i + 1 >= ts.len() {
                (None::<MessageV>, i + 1, seq![MessageParseErrorV::UnexpectedEol])
            } else {
                let bm = if accepts_move(ts[i + 1]) {
                    ts[i + 1]
                } else {
                    "0000"@
                };
                let wbm = if accepts_move(ts[i + 1]) {
                    Seq::<MessageParseErrorV>::empty()
                } else {
                    seq![MessageParseErrorV::InvalidBestmove(ts[i + 1])]
                };
                let (ponder, j, wp) = s_ponder(ts, i + 2);
                (Some(MessageV::BestMove { bestmove: bm, ponder }), j, wbm + wp)
            }
        } else if kw == "copyprotection"@ {
            let (st, j, w) = tristatus::spec_parse(ts, i + 1);
            match st {
                Some(s) => (Some(MessageV::CopyProtection(s)), j, wrap_copy(w)),
                None => (None::<MessageV>, j, wrap_copy(w)),
            }
        } else if kw == "registration"@ {
            let (st, j, w) = tristatus::spec_parse(ts, i + 1);
            match st {
                Some(s) => (Some(MessageV::Registration(s)), j, wrap_reg(w)),
                None => (None::<MessageV>, j, wrap_reg(w)),
            }
        } else if kw == "info"@ {
            let (items, string, w) = spec_info_loop(ts, i + 1, Seq::empty());
            (Some(MessageV::Info { info: items, string }), ts.len() as int, w)
        } else if kw == "option"@ {
            if i + 1 >= ts.len() {
                (None::<MessageV>, i + 1, seq![MessageParseErrorV::UnexpectedEol])
            } else if ts[i + 1] != "name"@ {
                (None::<MessageV>, i + 2, seq![MessageParseErrorV::OptionNoName])
            } else {
                let p = spec_find(ts, "type"@, i + 2);
                let name_toks = ts.subrange(i + 2, p);
                let body = if p < ts.len() {
                    ts.subrange(p + 1, ts.len() as int)
                } else {
                    Seq::<Seq<char>>::empty()
                };
                let wsplit = if p == ts.len() {
                    seq![MessageParseErrorV::OptionNoType]
                } else {
                    Seq::<MessageParseErrorV>::empty()
                };
                if no_tok(name_toks, "type"@) && no_tok(name_toks, "value"@) {
                    let (bv, bw) = optbody::spec_parse(body, 0);
                    match bv {
                        Some(b) => (
                            Some(MessageV::Option { name: spec_join(name_toks), body: b }),
                            ts.len() as int,
                            wsplit + wrap_body(bw),
                        ),
                        None => (None::<MessageV>, ts.len() as int, wsplit + wrap_body(bw)),
                    }
                } else {
                    (
                        None::<MessageV>,
                        ts.len() as int,
                        wsplit + seq![MessageParseErrorV::OptionBadName("value"@)],
                    )
                }
            }
        } else {
            let (v, j, w) = spec_parse_inner(ts, i + 1);
            (v, j, seq![MessageParseErrorV::UnexpectedToken(ts[i])] + w)
        }
    }
}

/// What reading a message line does: the message itself, then a warning for
/// a leftover token.
pub open spec fn spec_parse(ts: Seq<Seq<char>>, i: int) -> (
    Option<MessageV>,
    Seq<MessageParseErrorV>,
) {
    let (v, j, w) = spec_parse_inner(ts, i);
    if j < ts.len() {
        (v, w + seq![MessageParseErrorV::UnexpectedToken(ts[j])])
    } else {
        (v, w)
    }
}

/// Reads a message from the tokens at `i` to the end of the line; the cursor
/// always ends at the end, and leftover tokens after a complete message are
/// reported.
pub fn parse<S: Sink<MessageParseError>>(toks: &Vec<Token>, i: &mut usize, warn: &mut S) -> (r:
    Option<Message>)
    requires
        *old(i) <= toks@.len(),
    ensures
        ({
            let (v, w) = spec_parse(tok_views(toks@), *old(i) as int);
            ov(r) == v && views(final(warn).sunk()) == views(old(warn).sunk()) + w
        }),
        *final(i) == toks@.len(),
{
    let r = parse_inner(toks, i, warn);
    if *i < toks.len() {
        proof {
            assert(tok_views(toks@)[*i as int] == toks@[*i as int]@);
        }
        warn.warn(MessageParseError::UnexpectedToken(toks[*i].as_str().to_owned()));
        *i = toks.len();
    }
    r
}

/// Reads the message itself, leaving the cursor where reading stopped.
fn parse_inner<S: Sink<MessageParseError>>(toks: &Vec<Token>, i: &mut usize, warn: &mut S) -> (r:
    Option<Message>)
    requires
        *old(i) <= toks@.len(),
    ensures
        ({
            let (v, j, w) = spec_parse_inner(tok_views(toks@), *old(i) as int);
            ov(r) == v && *final(i) as int == j && views(final(warn).sunk()) == views(
                old(warn).sunk(),
            ) + w
        }),
        *final(i) <= toks@.len(),
{
    let ghost ts = tok_views(toks@);
    loop
        invariant
            *i <= toks@.len(),
            ts == tok_views(toks@),
            spec_parse_inner(ts, *old(i) as int).0 == spec_parse_inner(ts, *i as int).0,
            spec_parse_inner(ts, *old(i) as int).1 == spec_parse_inner(ts, *i as int).1,
            views(old(warn).sunk()) + spec_parse_inner(ts, *old(i) as int).2 == views(warn.sunk())
                + spec_parse_inner(ts, *i as int).2,
        decreases toks@.len() - *i,
    {
        let t = match tok::next(toks, i) {
            Some(t) => t,
            None => {
                return None;
            },
        };
        if t.is_kw("id") {
            let v = match tok::next(toks, i) {
                Some(v) => v,
                None => {
                    warn.warn(MessageParseError::UnexpectedEol(EolError));
                    return None;
                },
            };
            if v.is_kw("name") {
                let rest = tok::clone_range(toks, *i, toks.len());
                *i = toks.len();
                return Some(Message::Id(Id::Name(UciString::from_tokens(&rest))));
            } else if v.is_kw("author") {
                let rest = tok::clone_range(toks, *i, toks.len());
                *i = toks.len();
                return Some(Message::Id(Id::Author(UciString::from_tokens(&rest))));
            } else {
                warn.warn(MessageParseError::UnexpectedToken(v.as_str().to_owned()));
                return None;
            }
        } else if t.is_kw("uciok") {
            return Some(Message::UciOk);
        } else if t.is_kw("readyok") {
            return Some(Message::ReadyOk);
        } else if t.is_kw("bestmove") {
            let bm_tok = match tok::next(toks, i) {
                Some(v) => v,
                None => {
                    warn.warn(MessageParseError::UnexpectedEol(EolError));
                    return None;
                },
            };
            let bestmove = match UciMove::new(bm_tok.as_str()) {
                Some(m) => m,
                None => {
                    warn.warn(MessageParseError::InvalidBestmove(bm_tok.as_str().to_owned()));
                    UciMove::null()
                },
            };
            proof {
                reveal_strlit("0000");
            }
            let ponder = parse_ponder(toks, i, warn);
            return Some(Message::BestMove { bestmove, ponder });
        } else if t.is_kw("copyprotection") {
            let mut sub: All<TriStatusParseError> = All::new();
            let st = tristatus::parse(toks, i, &mut sub);
            let ghost subx = sub.log@;
            let ghost base = views(warn.sunk());
            let ghost mut done: int = 0;
            proof {
                assert(wrap_copy(views(subx)).take(0) =~= Seq::<MessageParseErrorV>::empty());
                assert(base + wrap_copy(views(subx)).take(0) =~= base);
                assert(sub.log@ =~= subx.skip(0));
            }
            while sub.log.len() > 0
                invariant
                    0 <= done <= subx.len(),
                    sub.log@ == subx.skip(done),
                    views(warn.sunk()) == base + wrap_copy(views(subx)).take(done),
                decreases sub.log@.len(),
            {
                let e = sub.log.remove(0);
                proof {
                    assert(e == subx[done]);
                    assert(subx.skip(done).remove(0) =~= subx.skip(done + 1));
                }
                warn.warn(MessageParseError::InvalidCopyProtection(e));
                proof {
                    assert(views(subx)[done] == subx[done]@);
                    assert(wrap_copy(views(subx)).take(done + 1) =~= wrap_copy(views(subx)).take(
                        done,
                    ).push(MessageParseErrorV::InvalidCopyProtection(e@)));
                    done = done + 1;
                }
            }
            proof {
                assert(subx.skip(done).len() == 0);
                assert(done == subx.len());
                assert(wrap_copy(views(subx)).take(done) =~= wrap_copy(views(subx)));
            }
            return match st {
                Some(s) => Some(Message::CopyProtection(s)),
                None => None,
            };
        } else if t.is_kw("registration") {
            let mut sub: All<TriStatusParseError> = All::new();
            let st = tristatus::parse(toks, i, &mut sub);
            let ghost subx = sub.log@;
            let ghost base = views(warn.sunk());
            let ghost mut done: int = 0;
            proof {
                assert(wrap_reg(views(subx)).take(0) =~= Seq::<MessageParseErrorV>::empty());
                assert(base + wrap_reg(views(subx)).take(0) =~= base);
                assert(sub.log@ =~= subx.skip(0));
            }
            while sub.log.len() > 0
                invariant
                    0 <= done <= subx.len(),
                    sub.log@ == subx.skip(done),
                    views(warn.sunk()) == base + wrap_reg(views(subx)).take(done),
                decreases sub.log@.len(),
            {
                let e = sub.log.remove(0);
                proof {
                    assert(e == subx[done]);
                    assert(subx.skip(done).remove(0) =~= subx.skip(done + 1));
                }
                warn.warn(MessageParseError::InvalidRegistration(e));
                proof {
                    assert(views(subx)[done] == subx[done]@);
                    assert(wrap_reg(views(subx)).take(done + 1) =~= wrap_reg(views(subx)).take(
                        done,
                    ).push(MessageParseErrorV::InvalidRegistration(e@)));
                    done = done + 1;
                }
            }
            proof {
                assert(subx.skip(done).len() == 0);
                assert(done == subx.len());
                assert(wrap_reg(views(subx)).take(done) =~= wrap_reg(views(subx)));
            }
            return match st {
                Some(s) => Some(Message::Registration(s)),
                None => None,
            };
        } else if t.is_kw("info") {
            return Some(parse_info_items(toks, i, warn));
        } else if t.is_kw("option") {
            match tok::next(toks, i) {
                Some(n) => {
                    if !n.is_kw("name") {
                        warn.warn(MessageParseError::OptionNoName);
                        return None;
                    }
                },
                None => {
                    warn.warn(MessageParseError::UnexpectedEol(EolError));
                    return None;
                },
            }
            let ghost q = *i as int;
            let (name_toks, body_toks) = tok::split(
                toks,
                *i,
                "type",
                MessageParseError::OptionNoType,
                warn,
            );
            *i = toks.len();
            let name = match OptName::from_tokens(&name_toks) {
                Ok(n) => n,
                Err(e) => {
                    proof {
                        let p = spec_find(ts, "type"@, q);
                        tok::lemma_find(ts, "type"@, q);
                        match &e {
                            StrError::BadToken(w) => {
                                if w@ == "type"@ {
                                    let x = choose|x: int|
                                        0 <= x < name_toks@.len() && #[trigger] tok_views(
                                            name_toks@,
                                        )[x] == w@;
                                    assert(tok_views(name_toks@)[x] == ts.subrange(q, p)[x]);
                                    assert(ts.subrange(q, p)[x] == ts[q + x]);
                                    assert(false);
                                }
                            },
                        }
                    }
                    warn.warn(MessageParseError::OptionBadName(e));
                    return None;
                },
            };
            let mut sub: All<OptBodyParseError> = All::new();
            let mut bi: usize = 0;
            let body = optbody::parse(&body_toks, &mut bi, &mut sub);
            let ghost subx = sub.log@;
            let ghost base = views(warn.sunk());
            let ghost mut done: int = 0;
            proof {
                assert(wrap_body(views(subx)).take(0) =~= Seq::<MessageParseErrorV>::empty());
                assert(base + wrap_body(views(subx)).take(0) =~= base);
                assert(sub.log@ =~= subx.skip(0));
            }
            while sub.log.len() > 0
                invariant
                    0 <= done <= subx.len(),
                    sub.log@ == subx.skip(done),
                    views(warn.sunk()) == base + wrap_body(views(subx)).take(done),
                decreases sub.log@.len(),
            {
                let e = sub.log.remove(0);
                proof {
                    assert(e == subx[done]);
                    assert(subx.skip(done).remove(0) =~= subx.skip(done + 1));
                }
                warn.warn(MessageParseError::OptionBadBody(e));
                proof {
                    assert(views(subx)[done] == subx[done]@);
                    assert(wrap_body(views(subx)).take(done + 1) =~= wrap_body(views(subx)).take(
                        done,
                    ).push(MessageParseErrorV::OptionBadBody(e@)));
                    done = done + 1;
                }
            }
            proof {
                assert(subx.skip(done).len() == 0);
                assert(done == subx.len());
                assert(wrap_body(views(subx)).take(done) =~= wrap_body(views(subx)));
            }
            return match body {
                Some(b) => Some(Message::Option { name, body: b }),
                None => None,
            };
        } else {
            warn.warn(MessageParseError::UnexpectedToken(t.as_str().to_owned()));
        }
    }
}

/// Reads the optional `ponder` tail of a `bestmove` message.
fn parse_ponder<S: Sink<MessageParseError>>(toks: &Vec<Token>, i: &mut usize, warn: &mut S) -> (r:
    Option<UciMove>)
    requires
        *old(i) <= toks@.len(),
    ensures
        ({
            let (p, j, w) = s_ponder(tok_views(toks@), *old(i) as int);
            ov(r) == p && *final(i) as int == j && views(final(warn).sunk()) == views(
                old(warn).sunk(),
            ) + w
        }),
        *final(i) <= toks@.len(),
{
    let t = match tok::next(toks, i) {
        Some(t) => t,
        None => {
            return None;
        },
    };
    if !t.is_kw("ponder") {
        warn.warn(MessageParseError::UnexpectedToken(t.as_str().to_owned()));
        return None;
    }
    let m = match tok::next(toks, i) {
        Some(m) => m,
        None => {
            warn.warn(MessageParseError::UnexpectedEol(EolError));
            return None;
        },
    };
    match UciMove::new(m.as_str()) {
        Some(mv) => Some(mv),
        None => {
            warn.warn(MessageParseError::InvalidPonder(m.as_str().to_owned()));
            None
        },
    }
}

/// Reads the items of an `info` line up to `string` or the end.
#[verifier::loop_isolation(false)]
fn parse_info_items<S: Sink<MessageParseError>>(toks: &Vec<Token>, i: &mut usize, warn: &mut S) -> (
    r: Message)
    requires
        *old(i) <= toks@.len(),
    ensures
        ({
            let (items, string, w) = spec_info_loop(
                tok_views(toks@),
                *old(i) as int,
                Seq::empty(),
            );
            r@ == (MessageV::Info { info: items, string }) && views(final(warn).sunk()) == views(
                old(warn).sunk(),
            ) + w
        }),
        *final(i) == toks@.len(),
{
    let ghost ts = tok_views(toks@);
    let mut items: Vec<Info> = Vec::new();
    proof {
        assert(views(items@) =~= Seq::<InfoV>::empty());
        reveal_strlit("string");
    }
    loop
        invariant
            *i <= toks@.len(),
            ts == tok_views(toks@),
            spec_info_loop(ts, *old(i) as int, Seq::empty()).0 == spec_info_loop(
                ts,
                *i as int,
                views(items@),
            ).0,
            spec_info_loop(ts, *old(i) as int, Seq::empty()).1 == spec_info_loop(
                ts,
                *i as int,
                views(items@),
            ).1,
            views(old(warn).sunk()) + spec_info_loop(ts, *old(i) as int, Seq::empty()).2 == views(
                warn.sunk(),
            ) + spec_info_loop(ts, *i as int, views(items@)).2,
        decreases toks@.len() - *i,
    {
        if *i >= toks.len() {
            return Message::Info { info: items, string: None };
        }
        proof {
            assert(ts[*i as int] == toks@[*i as int]@);
        }
        if toks[*i].is_kw("string") {
            let rest = tok::clone_range(toks, *i + 1, toks.len());
            *i = toks.len();
            let string = UciString::from_tokens(&rest);
            return Message::Info { info: items, string: Some(string) };
        }
        let ghost pos0 = *i as int;
        let mut sub: All<InfoParseError> = All::new();
        let pos_before = items.len();
        let item = info::parse(toks, i, &mut sub);
        let ghost subx = sub.log@;
        let ghost base = views(warn.sunk());
        let ghost mut done: int = 0;
        proof {
            assert(wrap_info(views(subx), pos_before as int).take(0)
                =~= Seq::<MessageParseErrorV>::empty());
            assert(base + wrap_info(views(subx), pos_before as int).take(0) =~= base);
            assert(sub.log@ =~= subx.skip(0));
        }
        while sub.log.len() > 0
            invariant
                0 <= done <= subx.len(),
                sub.log@ == subx.skip(done),
                views(warn.sunk()) == base + wrap_info(views(subx), pos_before as int).take(done),
            decreases sub.log@.len(),
        {
            let e = sub.log.remove(0);
            proof {
                assert(e == subx[done]);
                assert(subx.skip(done).remove(0) =~= subx.skip(done + 1));
            }
            warn.warn(MessageParseError::BadInfo { pos: pos_before, error: e });
            proof {
                assert(views(subx)[done] == subx[done]@);
                assert(wrap_info(views(subx), pos_before as int).take(done + 1) =~= wrap_info(
                    views(subx),
                    pos_before as int,
                ).take(done).push(MessageParseErrorV::BadInfo { pos: pos_before as int, error: e@ }));
                done = done + 1;
            }
        }
        proof {
            assert(subx.skip(done).len() == 0);
            assert(done == subx.len());
            assert(wrap_info(views(subx), pos_before as int).take(done) =~= wrap_info(
                views(subx),
                pos_before as int,
            ));
        }
        match item {
            Some(x) => {
                proof {
                    lemma_views_push(items@, x);
                }
                items.push(x);
            },
            None => {},
        }
        proof {
            info::lemma_info_bounds(ts, pos0);
        }
    }
}

/// The tokens a list of `info` items writes, in order.
pub open spec fn spec_fmt_infos(items: Seq<InfoV>) -> Seq<Seq<char>>
    decreases items.len(),
{
    if items.len() == 0 {
        Seq::empty()
    } else {
        info::spec_fmt_toks(items[0]) + spec_fmt_infos(items.skip(1))
    }
}

/// Appending one item appends its tokens.
pub proof fn lemma_fmt_infos_push(items: Seq<InfoV>, x: InfoV)
    ensures
        spec_fmt_infos(items.push(x)) == spec_fmt_infos(items) + info::spec_fmt_toks(x),
    decreases items.len(),
{
    if items.len() == 0 {
        assert(items.push(x).skip(1) =~= Seq::<InfoV>::empty());
        assert(items.push(x)[0] == x);
        assert(spec_fmt_infos(Seq::<InfoV>::empty()) == Seq::<Seq<char>>::empty());
        assert(spec_fmt_infos(items.push(x)) =~= spec_fmt_infos(items) + info::spec_fmt_toks(x));
    } else {
        assert(items.push(x).skip(1) =~= items.skip(1).push(x));
        lemma_fmt_infos_push(items.skip(1), x);
        assert(items.push(x)[0] == items[0]);
        assert(spec_fmt_infos(items.push(x)) =~= spec_fmt_infos(items) + info::spec_fmt_toks(x));
    }
}

/// The tokens a message writes.
pub open spec fn spec_fmt_toks(m: MessageV) -> Seq<Seq<char>> {
    match m {
        MessageV::Id(crate::msg::IdV::Name(s)) => seq!["id"@, "name"@] + spec_tokenize(s),
        MessageV::Id(crate::msg::IdV::Author(s)) => seq!["id"@, "author"@] + spec_tokenize(s),
        MessageV::UciOk => seq!["uciok"@],
        MessageV::ReadyOk => seq!["readyok"@],
        MessageV::BestMove { bestmove, ponder } => seq!["bestmove"@, bestmove] + (match ponder {
            Some(p) => seq!["ponder"@, p],
            None => Seq::<Seq<char>>::empty(),
        }),
        MessageV::CopyProtection(s) => seq!["copyprotection"@] + tristatus::spec_fmt(s),
        MessageV::Registration(s) => seq!["registration"@] + tristatus::spec_fmt(s),
        MessageV::Info { info: items, string } => seq!["info"@] + spec_fmt_infos(items) + (
        match string {
            Some(s) => seq!["string"@] + spec_tokenize(s),
            None => Seq::<Seq<char>>::empty(),
        }),
        MessageV::Option { name, body } => seq!["option"@, "name"@] + spec_tokenize(name) + seq![
            "type"@,
        ] + optbody::spec_fmt_toks(body),
    }
}

/// Writes a message as its canonical tokens.
pub fn fmt<P: PushTokens>(src: &Message, f: &mut P)
    ensures
        final(f).toks() == old(f).toks() + spec_fmt_toks(src@),
{
    proof {
        reveal_strlit("id");
        reveal_strlit("name");
        reveal_strlit("author");
        reveal_strlit("uciok");
        reveal_strlit("readyok");
        reveal_strlit("bestmove");
        reveal_strlit("ponder");
        reveal_strlit("copyprotection");
        reveal_strlit("registration");
        reveal_strlit("info");
        reveal_strlit("string");
        reveal_strlit("option");
        reveal_strlit("type");
    }
    match src {
        Message::Id(Id::Name(s)) => {
            f.push_kw("id");
            f.push_kw("name");
            proof {
                use_type_invariant(s);
            }
            f.push_body(s.as_str());
        },
        Message::Id(Id::Author(s)) => {
            f.push_kw("id");
            f.push_kw("author");
            proof {
                use_type_invariant(s);
            }
            f.push_body(s.as_str());
        },
        Message::UciOk => f.push_kw("uciok"),
        Message::ReadyOk => f.push_kw("readyok"),
        Message::BestMove { bestmove, ponder } => {
            f.push_kw("bestmove");
            proof {
                use_type_invariant(bestmove);
            }
            f.push_kw(bestmove.as_str());
            match ponder {
                Some(p) => {
                    f.push_kw("ponder");
                    proof {
                        use_type_invariant(p);
                    }
                    f.push_kw(p.as_str());
                },
                None => {},
            }
        },
        Message::CopyProtection(s) => {
            f.push_kw("copyprotection");
            tristatus::fmt(s, f);
        },
        Message::Registration(s) => {
            f.push_kw("registration");
            tristatus::fmt(s, f);
        },
        Message::Info { info: items, string } => {
            f.push_kw("info");
            let ghost head = old(f).toks().push("info"@);
            let mut j: usize = 0;
            proof {
                assert(head + spec_fmt_infos(views(items@).take(0)) =~= head);
            }
            while j < items.len()
                invariant
                    j <= items@.len(),
                    f.toks() == head + spec_fmt_infos(views(items@).take(j as int)),
                decreases items@.len() - j,
            {
                let it = &items[j];
                proof {
                    assert(views(items@)[j as int] == items@[j as int]@);
                }
                info::fmt(it, f);
                proof {
                    lemma_fmt_infos_push(views(items@).take(j as int), it@);
                    assert(views(items@).take(j as int).push(it@) =~= views(items@).take(
                        j as int + 1,
                    ));
                    assert(f.toks() =~= head + spec_fmt_infos(views(items@).take(j as int + 1)));
                }
                j += 1;
            }
            proof {
                assert(views(items@).take(items@.len() as int) =~= views(items@));
            }
            match string {
                Some(s) => {
                    f.push_kw("string");
                    proof {
                        use_type_invariant(s);
                    }
                    f.push_body(s.as_str());
                },
                None => {},
            }
        },
        Message::Option { name, body } => {
            f.push_kw("option");
            f.push_kw("name");
            proof {
                use_type_invariant(name);
            }
            f.push_body(name.as_str());
            f.push_kw("type");
            optbody::fmt(body, f);
        },
    }
    proof {
        assert(final(f).toks() =~= old(f).toks() + spec_fmt_toks(src@));
    }
}

/// Reads one whole line as a message; the sink receives every anomaly.
pub fn parse_line<S: Sink<MessageParseError>>(line: &str, warn: &mut S) -> (r: Option<Message>)
    ensures
        ({
            let (v, w) = spec_parse(spec_tokenize(line@), 0);
            ov(r) == v && views(final(warn).sunk()) == views(old(warn).sunk()) + w
        }),
{
    let toks = crate::token::tokenize(line);
    let mut i: usize = 0;
    parse(&toks, &mut i, warn)
}

/// Writes a message as one canonical line, without a newline.
pub fn fmt_line(src: &Message) -> (r: String)
    ensures
        r@ == spec_join(spec_fmt_toks(src@)),
{
    let mut buf = UciString::new();
    proof {
        crate::str::lemma_ucistring_toks(&buf);
        assert(buf.toks() =~= Seq::<Seq<char>>::empty());
    }
    fmt(src, &mut buf);
    proof {
        use_type_invariant(&buf);
        crate::str::lemma_ucistring_toks(&buf);
        assert(buf.toks() =~= spec_fmt_toks(src@));
    }
    buf.into_string()
}

/// The tokens the optional trailing free text of an `info` line writes.
pub open spec fn spec_fmt_string(string: Option<Seq<char>>) -> Seq<Seq<char>> {
    match string {
        Some(s) => seq!["string"@] + spec_tokenize(s),
        None => Seq::<Seq<char>>::empty(),
    }
}

/// A message that writing and reading leave unchanged: its strings are
/// canonical, its moves valid, and its option parts well-formed.
pub open spec fn wf_message(m: MessageV) -> bool {
    match m {
        MessageV::Id(crate::msg::IdV::Name(s)) => crate::token::is_body(s),
        MessageV::Id(crate::msg::IdV::Author(s)) => crate::token::is_body(s),
        MessageV::BestMove { bestmove, ponder } => accepts_move(bestmove) && crate::token::is_tok(
            bestmove,
        ) && (match ponder {
            Some(p) => accepts_move(p) && crate::token::is_tok(p),
            None => true,
        }),
        MessageV::Info { info: items, string } => (forall|j: int|
            0 <= j < items.len() ==> info::wf_info(#[trigger] items[j])) && (match string {
            Some(s) => crate::token::is_body(s),
            None => true,
        }),
        MessageV::Option { name, body } => crate::token::is_body(name) && no_tok(
            spec_tokenize(name),
            "type"@,
        ) && no_tok(spec_tokenize(name), "value"@) && optbody::wf_optbody(body),
        _ => true,
    }
}

/// Reading what the items and the trailing text wrote recovers them and
/// reports nothing.
proof fn lemma_info_loop_round(
    items: Seq<InfoV>,
    string: Option<Seq<char>>,
    ts: Seq<Seq<char>>,
    i: int,
    acc: Seq<InfoV>,
)
    requires
        0 <= i <= ts.len(),
        ts.subrange(i, ts.len() as int) == spec_fmt_infos(items) + spec_fmt_string(string),
        forall|j: int| 0 <= j < items.len() ==> info::wf_info(#[trigger] items[j]),
        match string {
            Some(s) => crate::token::is_body(s),
            None => true,
        },
    ensures
        spec_info_loop(ts, i, acc) == (acc + items, string, Seq::<MessageParseErrorV>::empty()),
    decreases items.len(),
{
    reveal_strlit("string");
    let fi = spec_fmt_infos(items) + spec_fmt_string(string);
    assert forall|x: int| i <= x < ts.len() implies ts[x] == fi[x - i] by {
        assert(ts.subrange(i, ts.len() as int)[x - i] == fi[x - i]);
    }
    if items.len() == 0 {
        assert(spec_fmt_infos(items) == Seq::<Seq<char>>::empty());
        match string {
            None => {
                assert(ts.len() == i);
                assert(acc + items =~= acc);
            },
            Some(s) => {
                assert(fi[0] == "string"@);
                assert(ts[i] == "string"@);
                crate::token::lemma_tokenize_tokens(s);
                crate::token::lemma_tokenize_join(spec_tokenize(s));
                assert forall|y: int| 0 <= y < ts.len() - i - 1 implies ts.subrange(
                    i + 1,
                    ts.len() as int,
                )[y] == spec_tokenize(s)[y] by {
                    assert(ts[i + 1 + y] == fi[1 + y]);
                    assert(fi[1 + y] == spec_tokenize(s)[y]);
                }
                assert(ts.subrange(i + 1, ts.len() as int) =~= spec_tokenize(s));
                assert(acc + items =~= acc);
            },
        }
    } else {
        let x0 = items[0];
        let ft0 = info::spec_fmt_toks(x0);
        let rest = spec_fmt_infos(items.skip(1));
        let sp = spec_fmt_string(string);
        info::lemma_info_head_boundary(x0);
        assert(spec_fmt_infos(items) == ft0 + rest);
        assert(fi =~= ft0 + (rest + sp));
        assert(ts.len() - i == fi.len());
        assert(fi[0] == ft0[0]);
        assert(ts[i] == fi[0]);
        assert(ts[i] != "string"@);
        let e = i + ft0.len();
        assert forall|y: int| 0 <= y < ft0.len() implies ts.subrange(i, e as int)[y] == ft0[y] by {
            assert(ts[i + y] == fi[y]);
            assert(fi[y] == (ft0 + (rest + sp))[y]);
        }
        assert(ts.subrange(i, e as int) =~= ft0);
        assert(e == ts.len() || (!crate::chess::spec_looks_like_move(ts[e]) && ts[e]
            != "lowerbound"@ && ts[e] != "upperbound"@)) by {
            if e < ts.len() {
                assert(ts[e] == fi[e - i]);
                assert(fi[e - i] == (rest + sp)[0]);
                if items.len() > 1 {
                    assert(items.skip(1)[0] == items[1]);
                    assert(rest == info::spec_fmt_toks(items[1]) + spec_fmt_infos(
                        items.skip(1).skip(1),
                    ));
                    info::lemma_info_head_boundary(items[1]);
                    assert((rest + sp)[0] == info::spec_fmt_toks(items[1])[0]);
                } else {
                    assert(items.skip(1).len() == 0);
                    assert(rest == Seq::<Seq<char>>::empty());
                    assert((rest + sp)[0] == sp[0]);
                    assert(sp[0] == "string"@);
                    reveal_strlit("lowerbound");
                    reveal_strlit("upperbound");
                }
            }
        }
        info::lemma_round_trip(x0, ts, i);
        assert forall|y: int| 0 <= y < ts.len() - e implies ts.subrange(e, ts.len() as int)[y] == (
        spec_fmt_infos(items.skip(1)) + spec_fmt_string(string))[y] by {
            assert(ts[e + y] == fi[e + y - i]);
            assert(fi[e + y - i] == (spec_fmt_infos(items.skip(1)) + spec_fmt_string(string))[y]);
        }
        assert(ts.subrange(e, ts.len() as int) =~= spec_fmt_infos(items.skip(1)) + spec_fmt_string(
            string,
        ));
        lemma_info_loop_round(items.skip(1), string, ts, e, acc.push(x0));
        assert(acc.push(x0) + items.skip(1) =~= acc + items);
    }
}

/// Reading what writing produced recovers the message and reports nothing;
/// the written tokens make up the whole remainder of the line.
#[verifier::rlimit(100)]
#[verifier::spinoff_prover]
pub proof fn lemma_round_trip(m: MessageV, ts: Seq<Seq<char>>, i: int)
    requires
        0 <= i,
        ts.len() == i + spec_fmt_toks(m).len(),
        ts.subrange(i, ts.len() as int) == spec_fmt_toks(m),
        wf_message(m),
    ensures
        spec_parse(ts, i) == (Some(m), Seq::<MessageParseErrorV>::empty()),
        spec_parse_inner(ts, i) == (Some(m), ts.len() as int, Seq::<MessageParseErrorV>::empty()),
{
    reveal_strlit("id");
    reveal_strlit("name");
    reveal_strlit("author");
    reveal_strlit("uciok");
    reveal_strlit("readyok");
    reveal_strlit("bestmove");
    reveal_strlit("ponder");
    reveal_strlit("copyprotection");
    reveal_strlit("registration");
    reveal_strlit("info");
    reveal_strlit("string");
    reveal_strlit("option");
    reveal_strlit("type");
    let ft = spec_fmt_toks(m);
    assert forall|x: int| i <= x < ts.len() implies ts[x] == ft[x - i] by {
        assert(ts.subrange(i, ts.len() as int)[x - i] == ft[x - i]);
    }
    match m {
        MessageV::Id(crate::msg::IdV::Name(s)) => {
            assert(ft[0] == "id"@);
            assert(ft[1] == "name"@);
            assert(ts[i] == "id"@);
            assert(ts[i + 1] == "name"@);
            crate::token::lemma_tokenize_tokens(s);
            crate::token::lemma_tokenize_join(spec_tokenize(s));
            assert forall|y: int| 0 <= y < ts.len() - i - 2 implies ts.subrange(
                i + 2,
                ts.len() as int,
            )[y] == spec_tokenize(s)[y] by {
                assert(ts[i + 2 + y] == ft[2 + y]);
                assert(ft[2 + y] == spec_tokenize(s)[y]);
            }
            assert(ts.subrange(i + 2, ts.len() as int) =~= spec_tokenize(s));
        },
        MessageV::Id(crate::msg::IdV::Author(s)) => {
            assert(ft[0] == "id"@);
            assert(ft[1] == "author"@);
            assert(ts[i] == "id"@);
            assert(ts[i + 1] == "author"@);
            assert(ts[i + 1] != "name"@) by {
                if ts[i + 1] == "name"@ {
                    assert("author"@.len() == 6 && "name"@.len() == 4);
                }
            }
            crate::token::lemma_tokenize_tokens(s);
            crate::token::lemma_tokenize_join(spec_tokenize(s));
            assert forall|y: int| 0 <= y < ts.len() - i - 2 implies ts.subrange(
                i + 2,
                ts.len() as int,
            )[y] == spec_tokenize(s)[y] by {
                assert(ts[i + 2 + y] == ft[2 + y]);
                assert(ft[2 + y] == spec_tokenize(s)[y]);
            }
            assert(ts.subrange(i + 2, ts.len() as int) =~= spec_tokenize(s));
        },
        MessageV::UciOk => {
            assert(ts[i] == "uciok"@);
        },
        MessageV::ReadyOk => {
            assert(ts[i] == "readyok"@);
        },
        MessageV::BestMove { bestmove, ponder } => {
            assert(ft[0] == "bestmove"@);
            assert(ts[i] == "bestmove"@);
            assert(ft[1] == bestmove);
            assert(ts[i + 1] == bestmove);
            match ponder {
                Some(p) => {
                    assert(ft[2] == "ponder"@);
                    assert(ts[i + 2] == "ponder"@);
                    assert(ft[3] == p);
                    assert(ts[i + 3] == p);
                },
                None => {
                    assert(ts.len() == i + 2);
                },
            }
        },
        MessageV::CopyProtection(s) => {
            assert(ft[0] == "copyprotection"@);
            assert(ts[i] == "copyprotection"@);
            assert(ts[i + 1] == tristatus::spec_fmt(s)[0]);
            tristatus::lemma_round_trip(s, ts, i + 1);
        },
        MessageV::Registration(s) => {
            assert(ft[0] == "registration"@);
            assert(ts[i] == "registration"@);
            assert(ts[i + 1] == tristatus::spec_fmt(s)[0]);
            tristatus::lemma_round_trip(s, ts, i + 1);
        },
        MessageV::Info { info: items, string } => {
            assert(ft[0] == "info"@);
            assert(ts[i] == "info"@);
            assert forall|y: int| 0 <= y < ts.len() - i - 1 implies ts.subrange(
                i + 1,
                ts.len() as int,
            )[y] == (spec_fmt_infos(items) + spec_fmt_string(string))[y] by {
                assert(ts[i + 1 + y] == ft[1 + y]);
                assert(ft[1 + y] == (spec_fmt_infos(items) + spec_fmt_string(string))[y]);
            }
            assert(ts.subrange(i + 1, ts.len() as int) =~= spec_fmt_infos(items) + spec_fmt_string(
                string,
            ));
            lemma_info_loop_round(items, string, ts, i + 1, Seq::empty());
            assert(Seq::<InfoV>::empty() + items =~= items);
        },
        MessageV::Option { name, body } => {
            assert(ft[0] == "option"@);
            assert(ft[1] == "name"@);
            assert(ts[i] == "option"@);
            assert(ts[i + 1] == "name"@);
            let tn = spec_tokenize(name);
            let k = i + 2 + tn.len();
            assert forall|x: int| i + 2 <= x < k implies ts[x] == tn[x - i - 2] by {
                assert(ts[x] == ft[x - i]);
                assert(ft[x - i] == tn[x - i - 2]);
            }
            assert(forall|x: int| i + 2 <= x < k ==> ts[x] != "type"@);
            assert(ts[k] == ft[k - i]);
            assert(ft[k - i] == "type"@);
            tok::lemma_find_exact(ts, "type"@, i + 2, k);
            assert(ts.subrange(i + 2, k) =~= tn);
            crate::token::lemma_tokenize_tokens(name);
            crate::token::lemma_tokenize_join(tn);
            let body_toks = ts.subrange(k + 1, ts.len() as int);
            let ftb = optbody::spec_fmt_toks(body);
            assert forall|y: int| 0 <= y < ts.len() - k - 1 implies body_toks[y] == ftb[y] by {
                assert(ts[k + 1 + y] == ft[k + 1 + y - i]);
                assert(ft[k + 1 + y - i] == ftb[y]);
            }
            assert(body_toks =~= ftb);
            assert(body_toks.subrange(0, body_toks.len() as int) =~= body_toks);
            optbody::lemma_round_trip(body, body_toks, 0);
        },
    }
}

/// Every token a list of well-formed `info` items writes is valid.
proof fn lemma_fmt_infos_valid(items: Seq<InfoV>)
    requires
        forall|j: int| 0 <= j < items.len() ==> info::wf_info(#[trigger] items[j]),
    ensures
        forall|j: int| 0 <= j < spec_fmt_infos(items).len() ==> crate::token::is_tok(
            #[trigger] spec_fmt_infos(items)[j],
        ),
    decreases items.len(),
{
    if items.len() > 0 {
        lemma_fmt_infos_valid(items.skip(1));
        info::lemma_fmt_valid(items[0]);
        crate::token::lemma_valid_concat(
            info::spec_fmt_toks(items[0]),
            spec_fmt_infos(items.skip(1)),
        );
    }
}

/// Every token a well-formed message writes is valid.
pub proof fn lemma_fmt_valid(m: MessageV)
    requires
        wf_message(m),
    ensures
        forall|j: int| 0 <= j < spec_fmt_toks(m).len() ==> crate::token::is_tok(
            #[trigger] spec_fmt_toks(m)[j],
        ),
{
    reveal_strlit("id");
    reveal_strlit("name");
    reveal_strlit("author");
    reveal_strlit("uciok");
    reveal_strlit("readyok");
    reveal_strlit("bestmove");
    reveal_strlit("ponder");
    reveal_strlit("copyprotection");
    reveal_strlit("registration");
    reveal_strlit("info");
    reveal_strlit("string");
    reveal_strlit("option");
    reveal_strlit("type");
    match m {
        MessageV::Id(crate::msg::IdV::Name(s)) => {
            crate::token::lemma_tokenize_tokens(s);
            crate::token::lemma_valid_concat(seq!["id"@, "name"@], spec_tokenize(s));
        },
        MessageV::Id(crate::msg::IdV::Author(s)) => {
            crate::token::lemma_tokenize_tokens(s);
            crate::token::lemma_valid_concat(seq!["id"@, "author"@], spec_tokenize(s));
        },
        MessageV::BestMove { bestmove, ponder } => {
            match ponder {
                Some(p) => {
                    crate::token::lemma_valid_concat(
                        seq!["bestmove"@, bestmove],
                        seq!["ponder"@, p],
                    );
                },
                None => {
                    assert(spec_fmt_toks(m) =~= seq!["bestmove"@, bestmove]);
                },
            }
        },
        MessageV::CopyProtection(s) => {
            tristatus::lemma_fmt_valid(s);
            crate::token::lemma_valid_concat(seq!["copyprotection"@], tristatus::spec_fmt(s));
        },
        MessageV::Registration(s) => {
            tristatus::lemma_fmt_valid(s);
            crate::token::lemma_valid_concat(seq!["registration"@], tristatus::spec_fmt(s));
        },
        MessageV::Info { info: items, string } => {
            lemma_fmt_infos_valid(items);
            match string {
                Some(s) => {
                    crate::token::lemma_tokenize_tokens(s);
                    crate::token::lemma_valid_concat(seq!["string"@], spec_tokenize(s));
                },
                None => {
                },
            }
            assert(forall|j: int| 0 <= j < spec_fmt_string(string).len()
                ==> crate::token::is_tok(#[trigger] spec_fmt_string(string)[j]));
            crate::token::lemma_valid_concat(seq!["info"@], spec_fmt_infos(items));
            crate::token::lemma_valid_concat(
                seq!["info"@] + spec_fmt_infos(items),
                spec_fmt_string(string),
            );
        },
        MessageV::Option { name, body } => {
            crate::token::lemma_tokenize_tokens(name);
            optbody::lemma_fmt_valid(body);
            crate::token::lemma_valid_concat(seq!["option"@, "name"@], spec_tokenize(name));
            crate::token::lemma_valid_concat(
                seq!["option"@, "name"@] + spec_tokenize(name),
                seq!["type"@],
            );
            crate::token::lemma_valid_concat(
                seq!["option"@, "name"@] + spec_tokenize(name) + seq!["type"@],
                optbody::spec_fmt_toks(body),
            );
        },
        _ => {
        },
    }
}

/// Writing a well-formed message as a line and reading the line back yields
/// the message with no warning: the whole round trip, through the canonical
/// join and the tokenizer.
pub proof fn lemma_line_round_trip(m: MessageV)
    requires
        wf_message(m),
    ensures
        spec_parse(spec_tokenize(spec_join(spec_fmt_toks(m))), 0) == (
            Some(m),
            Seq::<MessageParseErrorV>::empty(),
        ),
{
    lemma_fmt_valid(m);
    crate::token::lemma_tokenize_join(spec_fmt_toks(m));
    let ts = spec_fmt_toks(m);
    assert(ts.subrange(0, ts.len() as int) =~= ts);
    lemma_round_trip(m, ts, 0);
}

} // verus!
