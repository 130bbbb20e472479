//! Reading and writing commands from the GUI to the engine: the top-level
//! keyword dispatch and each command's payload.

use vstd::prelude::*;

use crate::chess::{fen_canon, initial_fen, accepts_move, spec_looks_like_move, RawBoard, UciMove};
use crate::msg::{ov, views, Command, CommandV, Register, RegisterV};
use crate::parse::go::{self, GoParseError};
use crate::parse::tok::{self, lemma_find_exact, spec_find};
use crate::parse::EolError;
use crate::str::{no_tok, OptName, RegisterName, StrError, UciString};
use crate::token::{is_tok, spec_join, spec_tokenize, tok_views, PushTokens, Token};
use crate::msg::lemma_views_empty;
use crate::parse::go::GoParseErrorV;
use crate::parse::movevec;
use crate::warn::{lemma_concat_assoc, lemma_concat_empty_l, lemma_concat_empty_r, lemma_concat_push, All, Sink};

verus! {

broadcast use {lemma_views_empty, crate::msg::lemma_views_push, lemma_concat_push, lemma_concat_empty_r, lemma_concat_empty_l, lemma_concat_assoc};

/// An error from reading a command line.
#[derive(Debug, Clone, PartialEq, Eq)]
pub enum CommandParseError {
    /// The named token was not understood where it stood.
    UnexpectedToken(String),
    /// A token was left after the command was complete.
    ExtraToken(String),
    /// The line ended where the command still needed a token.
    UnexpectedEol(EolError),
    /// `setoption` without the `name` keyword.
    SetOptionNoName,
    /// The option name is not a valid name string.
    SetOptionBadName(StrError),
    /// `register name` without the `code` keyword.
    RegisterNoCode,
    /// The register name is not a valid name string.
    RegisterBadName(StrError),
    /// `position` without the `moves` keyword; the move list is empty.
    PositionNoMoves,
    /// `position` without `startpos` or `fen`; the initial position is
    /// assumed.
    NoPosition,
    /// The FEN fields do not describe a position.
    InvalidFen,
    /// The move at the given position in the list could not be read.
    InvalidMove { pos: usize, token: String },
    /// A problem inside the `go` parameters.
    InvalidGo(GoParseError),
}

/// The view of a command-reading error.
pub enum CommandParseErrorV {
    UnexpectedToken(Seq<char>),
    ExtraToken(Seq<char>),
    UnexpectedEol,
    SetOptionNoName,
    SetOptionBadName(Seq<char>),
    RegisterNoCode,
    RegisterBadName(Seq<char>),
    PositionNoMoves,
    NoPosition,
    InvalidFen,
    InvalidMove { pos: int, token: Seq<char> },
    InvalidGo(GoParseErrorV),
}

impl View for CommandParseError {
    type V = CommandParseErrorV;

    open spec fn view(&self) -> CommandParseErrorV {
        match self {
            CommandParseError::UnexpectedToken(t) => CommandParseErrorV::UnexpectedToken(t@),
            CommandParseError::ExtraToken(t) => CommandParseErrorV::ExtraToken(t@),
            CommandParseError::UnexpectedEol(_) => CommandParseErrorV::UnexpectedEol,
            CommandParseError::SetOptionNoName => CommandParseErrorV::SetOptionNoName,
            CommandParseError::SetOptionBadName(StrError::BadToken(w)) => {
                CommandParseErrorV::SetOptionBadName(w@)
            },
            CommandParseError::RegisterNoCode => CommandParseErrorV::RegisterNoCode,
            CommandParseError::RegisterBadName(StrError::BadToken(w)) => {
                CommandParseErrorV::RegisterBadName(w@)
            },
            CommandParseError::PositionNoMoves => CommandParseErrorV::PositionNoMoves,
            CommandParseError::NoPosition => CommandParseErrorV::NoPosition,
            CommandParseError::InvalidFen => CommandParseErrorV::InvalidFen,
            CommandParseError::InvalidMove { pos, token } => CommandParseErrorV::InvalidMove {
                pos: *pos as int,
                token: token@,
            },
            CommandParseError::InvalidGo(e) => CommandParseErrorV::InvalidGo(e@),
        }
    }
}

/// `go` warnings, wrapped as command warnings.
pub open spec fn wrap_go(w: Seq<GoParseErrorV>) -> Seq<CommandParseErrorV> {
    w.map_values(|e: GoParseErrorV| CommandParseErrorV::InvalidGo(e))
}

/// The position of the first token of `ms` at or after `x` that the chess
/// library rejects as a move; the length of `ms` when all are accepted.
pub open spec fn first_bad_move(ms: Seq<Seq<char>>, x: int) -> int
    decreases ms.len() - x when 0 <= x <= ms.len()
{
    if x >= ms.len() {
        ms.len() as int
    } else if !accepts_move(ms[x]) {
        x
    } else {
        first_bad_move(ms, x + 1)
    }
}

/// When everything before `k` is accepted and `k` is the end or rejected,
/// `first_bad_move` lands exactly on `k`.
pub proof fn lemma_first_bad_move(ms: Seq<Seq<char>>, x: int, k: int)
    requires
        0 <= x <= k <= ms.len(),
        forall|y: int| x <= y < k ==> accepts_move(#[trigger] ms[y]),
        k == ms.len() || !accepts_move(ms[k]),
    ensures
        first_bad_move(ms, x) == k,
    decreases k - x,
{
    if x < k {
        lemma_first_bad_move(ms, x + 1, k);
    }
}

/// What reading the payload of `position` does to the tokens from `j` to the
/// end: the description up to `moves`, then the move list; the line is
/// consumed entirely.
pub open spec fn spec_position(ts: Seq<Seq<char>>, j: int) -> (
    Option<CommandV>,
    Seq<CommandParseErrorV>,
) {
    let p = spec_find(ts, "moves"@, j);
    let wsplit = if p == ts.len() {
        seq![CommandParseErrorV::PositionNoMoves]
    } else {
        Seq::<CommandParseErrorV>::empty()
    };
    let ms = if p < ts.len() {
        ts.subrange(p + 1, ts.len() as int)
    } else {
        Seq::<Seq<char>>::empty()
    };
    if j >= p {
        let fb = first_bad_move(ms, 0);
        if fb == ms.len() {
            (
                Some(CommandV::Position { startpos: initial_fen(), moves: ms }),
                wsplit + seq![CommandParseErrorV::NoPosition],
            )
        } else {
            (
                None::<CommandV>,
                wsplit + seq![CommandParseErrorV::NoPosition] + seq![
                    CommandParseErrorV::InvalidMove { pos: fb, token: ms[fb] },
                ],
            )
        }
    } else if ts[j] == "startpos"@ {
        let wextra = if j + 1 < p {
            seq![CommandParseErrorV::ExtraToken(ts[j + 1])]
        } else {
            Seq::<CommandParseErrorV>::empty()
        };
        let fb = first_bad_move(ms, 0);
        if fb == ms.len() {
            (
                Some(CommandV::Position { startpos: initial_fen(), moves: ms }),
                wsplit + wextra,
            )
        } else {
            (
                None::<CommandV>,
                wsplit + wextra + seq![
                    CommandParseErrorV::InvalidMove { pos: fb, token: ms[fb] },
                ],
            )
        }
    } else if ts[j] == "fen"@ {
        match fen_canon(spec_join(ts.subrange(j + 1, p))) {
            Some(b) => {
                let fb = first_bad_move(ms, 0);
                if fb == ms.len() {
                    (Some(CommandV::Position { startpos: b, moves: ms }), wsplit)
                } else {
                    (
                        None::<CommandV>,
                        wsplit + seq![
                            CommandParseErrorV::InvalidMove { pos: fb, token: ms[fb] },
                        ],
                    )
                }
            },
            None => (None::<CommandV>, wsplit + seq![CommandParseErrorV::InvalidFen]),
        }
    } else {
        (None::<CommandV>, wsplit + seq![CommandParseErrorV::UnexpectedToken(ts[j])])
    }
}

/// What reading a command does to the tokens from `i` on, before the check
/// for leftovers: unknown leading tokens are skipped with a warning; the
/// first recognized keyword decides the command and consumes its payload.
pub open spec fn spec_parse_inner(ts: Seq<Seq<char>>, i: int) -> (
    Option<CommandV>,
    int,
    Seq<CommandParseErrorV>,
)
    decreases ts.len() - i when 0 <= i <= ts.len()
{
    if i >= ts.len() {
        (None::<CommandV>, i, Seq::<CommandParseErrorV>::empty())
    } else {
        let kw = ts[i];
        if kw == "uci"@ {
            (Some(CommandV::Uci), i + 1, Seq::<CommandParseErrorV>::empty())
        } else if kw == "debug"@ {
            if i + 1 >= ts.len() {
                (None::<CommandV>, i + 1, seq![CommandParseErrorV::UnexpectedEol])
            } else if ts[i + 1] == "on"@ {
                (Some(CommandV::Debug(true)), i + 2, Seq::<CommandParseErrorV>::empty())
            } else if ts[i + 1] == "off"@ {
                (Some(CommandV::Debug(false)), i + 2, Seq::<CommandParseErrorV>::empty())
            } else {
                (
                    None::<CommandV>,
                    i + 2,
                    seq![CommandParseErrorV::UnexpectedToken(ts[i + 1])],
                )
            }
        } else if kw == "isready"@ {
            (Some(CommandV::IsReady), i + 1, Seq::<CommandParseErrorV>::empty())
        } else if kw == "setoption"@ {
            if i + 1 >= ts.len() {
                (None::<CommandV>, i + 1, seq![CommandParseErrorV::UnexpectedEol])
            } else if ts[i + 1] != "name"@ {
                (None::<CommandV>, i + 2, seq![CommandParseErrorV::SetOptionNoName])
            } else {
                let p = spec_find(ts, "value"@, i + 2);
                let name_toks = ts.subrange(i + 2, p);
                if no_tok(name_toks, "type"@) && no_tok(name_toks, "value"@) {
                    (
                        Some(
                            CommandV::SetOption {
                                name: spec_join(name_toks),
                                value: if p < ts.len() {
                                    Some(spec_join(ts.subrange(p + 1, ts.len() as int)))
                                } else {
                                    None
                                },
                            },
                        ),
                        ts.len() as int,
                        Seq::<CommandParseErrorV>::empty(),
                    )
                } else {
                    (
                        None::<CommandV>,
                        ts.len() as int,
                        seq![CommandParseErrorV::SetOptionBadName("type"@)],
                    )
                }
            }
        } else if kw == "register"@ {
            if i + 1 >= ts.len() {
                (None::<CommandV>, i + 1, seq![CommandParseErrorV::UnexpectedEol])
            } else if ts[i + 1] == "later"@ {
                (
                    Some(CommandV::Register(RegisterV::Later)),
                    i + 2,
                    Seq::<CommandParseErrorV>::empty(),
                )
            } else if ts[i + 1] == "name"@ {
                let p = spec_find(ts, "code"@, i + 2);
                let name_toks = ts.subrange(i + 2, p);
                let code = if p < ts.len() {
                    spec_join(ts.subrange(p + 1, ts.len() as int))
                } else {
                    Seq::<char>::empty()
                };
                let wsplit = if p == ts.len() {
                    seq![CommandParseErrorV::RegisterNoCode]
                } else {
                    Seq::<CommandParseErrorV>::empty()
                };
                (
                    Some(CommandV::Register(RegisterV::Now { name: spec_join(name_toks), code })),
                    ts.len() as int,
                    wsplit,
                )
            } else {
                (
                    None::<CommandV>,
                    i + 2,
                    seq![CommandParseErrorV::UnexpectedToken(ts[i + 1])],
                )
            }
        } else if kw == "ucinewgame"@ {
            (Some(CommandV::UciNewGame), i + 1, Seq::<CommandParseErrorV>::empty())
        } else if kw == "position"@ {
            let (v, w) = spec_position(ts, i + 1);
            (v, ts.len() as int, w)
        } else if kw == "go"@ {
            let (g, j, w) = go::spec_parse(ts, i + 1);
            (Some(CommandV::Go(g)), j, wrap_go(w))
        } else if kw == "stop"@ {
            (Some(CommandV::Stop), i + 1, Seq::<CommandParseErrorV>::empty())
        } else if kw == "ponderhit"@ {
            (Some(CommandV::PonderHit), i + 1, Seq::<CommandParseErrorV>::empty())
        } else if kw == "quit"@ {
            (Some(CommandV::Quit), i + 1, Seq::<CommandParseErrorV>::empty())
        } else {
            let (v, j, w) = spec_parse_inner(ts, i + 1);
            (v, j, seq![CommandParseErrorV::UnexpectedToken(ts[i])] + w)
        }
    }
}

/// What reading a command line does: the command itself, then a warning for
/// a leftover token.
pub open spec fn spec_parse(ts: Seq<Seq<char>>, i: int) -> (
    Option<CommandV>,
    Seq<CommandParseErrorV>,
) {
    let (v, j, w) = spec_parse_inner(ts, i);
    if j < ts.len() {
        (v, w + seq![CommandParseErrorV::ExtraToken(ts[j])])
    } else {
        (v, w)
    }
}

/// Reads a command from the tokens at `i` to the end of the line; the cursor
/// always ends at the end, and leftover tokens after a complete command are
/// reported as extra.
pub fn parse<S: Sink<CommandParseError>>(toks: &Vec<Token>, i: &mut usize, warn: &mut S) -> (r:
    Option<Command>)
    requires
        *old(i) <= toks@.len(),
    ensures
        ({
            let (v, w) = spec_parse(tok_views(toks@), *old(i) as int);
            ov(r) == v && views(final(warn).sunk()) == views(old(warn).sunk()) + w
        }),
        *final(i) == toks@.len(),
{
    let r = parse_inner(toks, i, warn);
    if *i < toks.len() {
        proof {
            assert(tok_views(toks@)[*i as int] == toks@[*i as int]@);
        }
        warn.warn(CommandParseError::ExtraToken(toks[*i].as_str().to_owned()));
        *i = toks.len();
    }
    r
}

/// Reads the command itself, leaving the cursor where reading stopped.
fn parse_inner<S: Sink<CommandParseError>>(toks: &Vec<Token>, i: &mut usize, warn: &mut S) -> (r:
    Option<Command>)
    requires
        *old(i) <= toks@.len(),
    ensures
        ({
            let (v, j, w) = spec_parse_inner(tok_views(toks@), *old(i) as int);
            ov(r) == v && *final(i) as int == j && views(final(warn).sunk()) == views(
                old(warn).sunk(),
            ) + w
        }),
        *final(i) <= toks@.len(),
{
    let ghost ts = tok_views(toks@);
    loop
        invariant
            *i <= toks@.len(),
            ts == tok_views(toks@),
            spec_parse_inner(ts, *old(i) as int).0 == spec_parse_inner(ts, *i as int).0,
            spec_parse_inner(ts, *old(i) as int).1 == spec_parse_inner(ts, *i as int).1,
            views(old(warn).sunk()) + spec_parse_inner(ts, *old(i) as int).2 == views(warn.sunk())
                + spec_parse_inner(ts, *i as int).2,
        decreases toks@.len() - *i,
    {
        let t = match tok::next(toks, i) {
            Some(t) => t,
            None => {
                return None;
            },
        };
        if t.is_kw("uci") {
            return Some(Command::Uci);
        } else if t.is_kw("debug") {
            let v = match tok::next(toks, i) {
                Some(v) => v,
                None => {
                    warn.warn(CommandParseError::UnexpectedEol(EolError));
                    return None;
                },
            };
            if v.is_kw("on") {
                return Some(Command::Debug(true));
            } else if v.is_kw("off") {
                return Some(Command::Debug(false));
            } else {
                warn.warn(CommandParseError::UnexpectedToken(v.as_str().to_owned()));
                return None;
            }
        } else if t.is_kw("isready") {
            return Some(Command::IsReady);
        } else if t.is_kw("setoption") {
            match tok::next(toks, i) {
                Some(n) => {
                    if !n.is_kw("name") {
                        warn.warn(CommandParseError::SetOptionNoName);
                        return None;
                    }
                },
                None => {
                    warn.warn(CommandParseError::UnexpectedEol(EolError));
                    return None;
                },
            }
            let ghost q = *i as int;
            let (name_toks, value_toks) = tok::try_split(toks, *i, "value");
            *i = toks.len();
            let name = match OptName::from_tokens(&name_toks) {
                Ok(n) => n,
                Err(e) => {
                    proof {
                        let p = spec_find(ts, "value"@, q);
                        tok::lemma_find(ts, "value"@, q);
                        match &e {
                            StrError::BadToken(w) => {
                                if w@ == "value"@ {
                                    let x = choose|x: int|
                                        0 <= x < name_toks@.len() && #[trigger] tok_views(
                                            name_toks@,
                                        )[x] == w@;
                                    assert(tok_views(name_toks@)[x] == ts.subrange(q, p)[x]);
                                    assert(ts.subrange(q, p)[x] == ts[q + x]);
                                    assert(false);
                                }
                            },
                        }
                    }
                    warn.warn(CommandParseError::SetOptionBadName(e));
                    return None;
                },
            };
            let value = match value_toks {
                Some(vt) => Some(UciString::from_tokens(&vt)),
                None => None,
            };
            return Some(Command::SetOption { name, value });
        } else if t.is_kw("register") {
            let v = match tok::next(toks, i) {
                Some(v) => v,
                None => {
                    warn.warn(CommandParseError::UnexpectedEol(EolError));
                    return None;
                },
            };
            if v.is_kw("later") {
                return Some(Command::Register(Register::Later));
            } else if v.is_kw("name") {
                let ghost q = *i as int;
                let (name_toks, code_toks) = tok::split(
                    toks,
                    *i,
                    "code",
                    CommandParseError::RegisterNoCode,
                    warn,
                );
                *i = toks.len();
                let name = match RegisterName::from_tokens(&name_toks) {
                    Ok(n) => n,
                    Err(e) => {
                        // a name cut off at the first `code` cannot contain `code`
                        proof {
                            let p = spec_find(ts, "code"@, q);
                            tok::lemma_find(ts, "code"@, q);
                            match &e {
                                StrError::BadToken(w) => {
                                    let x = choose|x: int|
                                        0 <= x < name_toks@.len() && #[trigger] tok_views(
                                            name_toks@,
                                        )[x] == w@;
                                    assert(tok_views(name_toks@)[x] == ts.subrange(q, p)[x]);
                                    assert(ts.subrange(q, p)[x] == ts[q + x]);
                                    assert(false);
                                },
                            }
                        }
                        warn.warn(CommandParseError::RegisterBadName(e));
                        return None;
                    },
                };
                let code = UciString::from_tokens(&code_toks);
                return Some(Command::Register(Register::Now { name, code }));
            } else {
                warn.warn(CommandParseError::UnexpectedToken(v.as_str().to_owned()));
                return None;
            }
        } else if t.is_kw("ucinewgame") {
            return Some(Command::UciNewGame);
        } else if t.is_kw("position") {
            return parse_position(toks, i, warn);
        } else if t.is_kw("go") {
            let mut sub: All<GoParseError> = All::new();
            let g = go::parse(toks, i, &mut sub);
            let ghost subx = sub.log@;
            let ghost base = views(warn.sunk());
            let ghost mut done: int = 0;
            proof {
                assert(wrap_go(views(subx)).take(0) =~= Seq::<CommandParseErrorV>::empty());
                assert(base + wrap_go(views(subx)).take(0) =~= base);
                assert(sub.log@ =~= subx.skip(0));
            }
            while sub.log.len() > 0
                invariant
                    0 <= done <= subx.len(),
                    sub.log@ == subx.skip(done),
                    views(warn.sunk()) == base + wrap_go(views(subx)).take(done),
                decreases sub.log@.len(),
            {
                let e = sub.log.remove(0);
                proof {
                    assert(e == subx[done]);
                    assert(subx.skip(done).remove(0) =~= subx.skip(done + 1));
                }
                warn.warn(CommandParseError::InvalidGo(e));
                proof {
                    assert(views(subx)[done] == subx[done]@);
                    assert(wrap_go(views(subx)).take(done + 1) =~= wrap_go(views(subx)).take(
                        done,
                    ).push(CommandParseErrorV::InvalidGo(e@)));
                    done = done + 1;
                }
            }
            proof {
                assert(subx.skip(done).len() == 0);
                assert(done == subx.len());
                assert(wrap_go(views(subx)).take(done) =~= wrap_go(views(subx)));
            }
            return Some(Command::Go(g));
        } else if t.is_kw("stop") {
            return Some(Command::Stop);
        } else if t.is_kw("ponderhit") {
            return Some(Command::PonderHit);
        } else if t.is_kw("quit") {
            return Some(Command::Quit);
        } else {
            warn.warn(CommandParseError::UnexpectedToken(t.as_str().to_owned()));
        }
    }
}

/// Reads the payload of `position`: the position description up to `moves`,
/// then the move list.
#[verifier::loop_isolation(false)]
fn parse_position<S: Sink<CommandParseError>>(toks: &Vec<Token>, i: &mut usize, warn: &mut S) -> (r:
    Option<Command>)
    requires
        *old(i) <= toks@.len(),
    ensures
        ({
            let (v, w) = spec_position(tok_views(toks@), *old(i) as int);
            ov(r) == v && views(final(warn).sunk()) == views(old(warn).sunk()) + w
        }),
        *final(i) == toks@.len(),
{
    let ghost ts = tok_views(toks@);
    let (pos_toks, moves_toks) = tok::split(
        toks,
        *i,
        "moves",
        CommandParseError::PositionNoMoves,
        warn,
    );
    *i = toks.len();
    let startpos: RawBoard = if pos_toks.len() == 0 {
        proof {
            assert(tok_views(pos_toks@).len() == pos_toks@.len());
        }
        warn.warn(CommandParseError::NoPosition);
        RawBoard::initial()
    } else {
        proof {
            let p = spec_find(ts, "moves"@, *old(i) as int);
            assert(tok_views(pos_toks@).len() == pos_toks@.len());
            assert(p - *old(i) > 0);
            assert(tok_views(pos_toks@)[0] == pos_toks@[0]@);
            assert(tok_views(pos_toks@)[0] == ts.subrange(*old(i) as int, p)[0]);
            assert(ts.subrange(*old(i) as int, p)[0] == ts[*old(i) as int]);
        }
        if pos_toks[0].is_kw("startpos") {
            if pos_toks.len() > 1 {
                proof {
                    assert(tok_views(pos_toks@)[1] == pos_toks@[1]@);
                }
                warn.warn(CommandParseError::ExtraToken(pos_toks[1].as_str().to_owned()));
            }
            RawBoard::initial()
        } else if pos_toks[0].is_kw("fen") {
            let fen_part = tok::clone_range(&pos_toks, 1, pos_toks.len());
            let fen_text = UciString::from_tokens(&fen_part);
            proof {
                let p = spec_find(ts, "moves"@, *old(i) as int);
                tok::lemma_find(ts, "moves"@, *old(i) as int);
                let pts = tok_views(pos_toks@);
                assert(pts == ts.subrange(*old(i) as int, p));
                assert forall|y: int| 0 <= y < pts.len() - 1 implies pts.subrange(
                    1,
                    pts.len() as int,
                )[y] == ts.subrange(*old(i) + 1, p)[y] by {
                    assert(pts.subrange(1, pts.len() as int)[y] == pts[y + 1]);
                    assert(ts.subrange(*old(i) + 1, p)[y] == ts[*old(i) + 1 + y]);
                    assert(pts[y + 1] == ts.subrange(*old(i) as int, p)[y + 1]);
                }
                assert(pts.subrange(1, pts.len() as int) =~= ts.subrange(*old(i) + 1, p));
            }
            match RawBoard::from_fen(fen_text.as_str()) {
                Some(b) => {
                    proof {
                        let p = spec_find(ts, "moves"@, *old(i) as int);
                        assert(fen_text@ == spec_join(ts.subrange(*old(i) + 1, p)));
                        assert(fen_canon(spec_join(ts.subrange(*old(i) + 1, p))) == Some(b@));
                    }
                    b
                },
                None => {
                    warn.warn(CommandParseError::InvalidFen);
                    return None;
                },
            }
        } else {
            warn.warn(CommandParseError::UnexpectedToken(pos_toks[0].as_str().to_owned()));
            return None;
        }
    };
    let mut moves: Vec<UciMove> = Vec::new();
    let ghost mts = tok_views(moves_toks@);
    let ghost wpre = views(warn.sunk());
    let mut k: usize = 0;
    proof {
        assert(views(moves@) =~= mts.take(0));
    }
    while k < moves_toks.len()
        invariant
            k <= moves_toks@.len(),
            *i == toks@.len(),
            mts == tok_views(moves_toks@),
            views(moves@) == mts.take(k as int),
            forall|x: int| 0 <= x < k ==> accepts_move(#[trigger] mts[x]),
            views(warn.sunk()) == wpre,
        decreases moves_toks@.len() - k,
    {
        proof {
            assert(mts[k as int] == moves_toks@[k as int]@);
        }
        match UciMove::new(moves_toks[k].as_str()) {
            Some(m) => {
                proof {
                    crate::msg::lemma_views_push(moves@, m);
                    assert(views(moves@).push(m@) =~= mts.take(k as int + 1));
                }
                moves.push(m);
            },
            None => {
                proof {
                    lemma_first_bad_move(mts, 0, k as int);
                }
                warn.warn(
                    CommandParseError::InvalidMove {
                        pos: k,
                        token: moves_toks[k].as_str().to_owned(),
                    },
                );
                return None;
            },
        }
        k += 1;
    }
    proof {
        assert(mts.take(moves_toks@.len() as int) =~= mts);
        lemma_first_bad_move(mts, 0, mts.len() as int);
        assert(views(moves@) == mts);
    }
    Some(Command::Position { startpos, moves })
}

/// The tokens a command writes.
pub open spec fn spec_fmt_toks(c: CommandV) -> Seq<Seq<char>> {
    match c {
        CommandV::Uci => seq!["uci"@],
        CommandV::Debug(v) => seq![
            "debug"@,
            if v {
                "on"@
            } else {
                "off"@
            },
        ],
        CommandV::IsReady => seq!["isready"@],
        CommandV::SetOption { name, value } => seq!["setoption"@, "name"@] + spec_tokenize(name)
            + (match value {
            Some(v) => seq!["value"@] + spec_tokenize(v),
            None => Seq::<Seq<char>>::empty(),
        }),
        CommandV::Register(RegisterV::Later) => seq!["register"@, "later"@],
        CommandV::Register(RegisterV::Now { name, code }) => seq!["register"@, "name"@]
            + spec_tokenize(name) + seq!["code"@] + spec_tokenize(code),
        CommandV::UciNewGame => seq!["ucinewgame"@],
        CommandV::Position { startpos, moves } => seq!["position"@] + (if startpos
            == initial_fen() {
            seq!["startpos"@]
        } else {
            seq!["fen"@] + spec_tokenize(startpos)
        }) + seq!["moves"@] + moves,
        CommandV::Go(g) => seq!["go"@] + go::spec_fmt_toks(g),
        CommandV::Stop => seq!["stop"@],
        CommandV::PonderHit => seq!["ponderhit"@],
        CommandV::Quit => seq!["quit"@],
    }
}

/// Writes a command as its canonical tokens.
pub fn fmt<P: PushTokens>(src: &Command, f: &mut P)
    ensures
        final(f).toks() == old(f).toks() + spec_fmt_toks(src@),
{
    proof {
        reveal_strlit("uci");
        reveal_strlit("debug");
        reveal_strlit("on");
        reveal_strlit("off");
        reveal_strlit("isready");
        reveal_strlit("setoption");
        reveal_strlit("name");
        reveal_strlit("value");
        reveal_strlit("register");
        reveal_strlit("later");
        reveal_strlit("code");
        reveal_strlit("ucinewgame");
        reveal_strlit("position");
        reveal_strlit("startpos");
        reveal_strlit("fen");
        reveal_strlit("moves");
        reveal_strlit("go");
        reveal_strlit("stop");
        reveal_strlit("ponderhit");
        reveal_strlit("quit");
    }
    match src {
        Command::Uci => f.push_kw("uci"),
        Command::Debug(v) => {
            f.push_kw("debug");
            if *v {
                f.push_kw("on");
            } else {
                f.push_kw("off");
            }
        },
        Command::IsReady => f.push_kw("isready"),
        Command::SetOption { name, value } => {
            f.push_kw("setoption");
            f.push_kw("name");
            proof {
                use_type_invariant(name);
            }
            f.push_body(name.as_str());
            match value {
                Some(v) => {
                    f.push_kw("value");
                    proof {
                        use_type_invariant(v);
                    }
                    f.push_body(v.as_str());
                },
                None => {},
            }
        },
        Command::Register(reg) => {
            f.push_kw("register");
            match reg {
                Register::Later => f.push_kw("later"),
                Register::Now { name, code } => {
                    f.push_kw("name");
                    proof {
                        use_type_invariant(name);
                    }
                    f.push_body(name.as_str());
                    f.push_kw("code");
                    proof {
                        use_type_invariant(code);
                    }
                    f.push_body(code.as_str());
                },
            }
        },
        Command::UciNewGame => f.push_kw("ucinewgame"),
        Command::Position { startpos, moves } => {
            f.push_kw("position");
            if startpos.is_initial() {
                f.push_kw("startpos");
            } else {
                f.push_kw("fen");
                proof {
                    use_type_invariant(startpos);
                }
                f.push_body(startpos.as_fen());
            }
            f.push_kw("moves");
            movevec::fmt(moves, f);
        },
        Command::Go(g) => {
            f.push_kw("go");
            go::fmt(g, f);
        },
        Command::Stop => f.push_kw("stop"),
        Command::PonderHit => f.push_kw("ponderhit"),
        Command::Quit => f.push_kw("quit"),
    }
    proof {
        assert(final(f).toks() =~= old(f).toks() + spec_fmt_toks(src@));
    }
}

/// Reads one whole line as a command; the sink receives every anomaly.
pub fn parse_line<S: Sink<CommandParseError>>(line: &str, warn: &mut S) -> (r: Option<Command>)
    ensures
        ({
            let (v, w) = spec_parse(spec_tokenize(line@), 0);
            ov(r) == v && views(final(warn).sunk()) == views(old(warn).sunk()) + w
        }),
{
    let toks = crate::token::tokenize(line);
    let mut i: usize = 0;
    parse(&toks, &mut i, warn)
}

/// Writes a command as one canonical line, without a newline.
pub fn fmt_line(src: &Command) -> (r: String)
    ensures
        r@ == spec_join(spec_fmt_toks(src@)),
{
    let mut buf = UciString::new();
    proof {
        crate::str::lemma_ucistring_toks(&buf);
        assert(buf.toks() =~= Seq::<Seq<char>>::empty());
    }
    fmt(src, &mut buf);
    proof {
        use_type_invariant(&buf);
        crate::str::lemma_ucistring_toks(&buf);
        assert(buf.toks() =~= spec_fmt_toks(src@));
    }
    buf.into_string()
}

/// A command that writing and reading leave unchanged: its strings are
/// canonical and free of the reserved tokens that delimit them on the wire,
/// its moves are valid, and a position other than the initial one is a
/// canonical FEN without a stray `moves` token.
pub open spec fn wf_command(c: CommandV) -> bool {
    match c {
        CommandV::SetOption { name, value } => crate::token::is_body(name) && no_tok(
            spec_tokenize(name),
            "type"@,
        ) && no_tok(spec_tokenize(name), "value"@) && (match value {
            Some(v) => crate::token::is_body(v),
            None => true,
        }),
        CommandV::Register(RegisterV::Later) => true,
        CommandV::Register(RegisterV::Now { name, code }) => crate::token::is_body(name) && no_tok(
            spec_tokenize(name),
            "code"@,
        ) && crate::token::is_body(code),
        CommandV::Position { startpos, moves } => crate::parse::info::wf_moves(moves) && (startpos
            == crate::chess::initial_fen() || (crate::token::is_body(startpos) && fen_canon(
            startpos,
        ) == Some(startpos) && no_tok(spec_tokenize(startpos), "moves"@) && spec_tokenize(
            startpos,
        ).len() > 0)),
        CommandV::Go(g) => go::wf_go(g),
        _ => true,
    }
}

/// The command keywords of equal length are pairwise distinct.
proof fn lemma_command_keywords_distinct()
    ensures
        "register"@ != "position"@,
        "setoption"@ != "ponderhit"@,
        "stop"@ != "quit"@,
{
    reveal_strlit("register");
    reveal_strlit("position");
    reveal_strlit("setoption");
    reveal_strlit("ponderhit");
    reveal_strlit("stop");
    reveal_strlit("quit");
    assert("register"@ != "position"@) by {
        if "register"@ == "position"@ {
            assert("register"@[0] == 'r' && "position"@[0] == 'p');
        }
    }
    assert("setoption"@ != "ponderhit"@) by {
        if "setoption"@ == "ponderhit"@ {
            assert("setoption"@[0] == 's' && "ponderhit"@[0] == 'p');
        }
    }
    assert("stop"@ != "quit"@) by {
        if "stop"@ == "quit"@ {
            assert("stop"@[0] == 's' && "quit"@[0] == 'q');
        }
    }
}

/// Reading what writing produced recovers the command and reports nothing;
/// the written tokens make up the whole remainder of the line.
#[verifier::rlimit(100)]
#[verifier::spinoff_prover]
pub proof fn lemma_round_trip(c: CommandV, ts: Seq<Seq<char>>, i: int)
    requires
        0 <= i,
        ts.len() == i + spec_fmt_toks(c).len(),
        ts.subrange(i, ts.len() as int) == spec_fmt_toks(c),
        wf_command(c),
    ensures
        spec_parse(ts, i) == (Some(c), Seq::<CommandParseErrorV>::empty()),
        spec_parse_inner(ts, i) == (Some(c), ts.len() as int, Seq::<CommandParseErrorV>::empty()),
{
    reveal_strlit("uci");
    reveal_strlit("debug");
    reveal_strlit("on");
    reveal_strlit("off");
    reveal_strlit("isready");
    reveal_strlit("setoption");
    reveal_strlit("name");
    reveal_strlit("value");
    reveal_strlit("register");
    reveal_strlit("later");
    reveal_strlit("code");
    reveal_strlit("ucinewgame");
    reveal_strlit("position");
    reveal_strlit("startpos");
    reveal_strlit("fen");
    reveal_strlit("moves");
    reveal_strlit("go");
    reveal_strlit("stop");
    reveal_strlit("ponderhit");
    reveal_strlit("quit");
    lemma_command_keywords_distinct();
    let ft = spec_fmt_toks(c);
    assert forall|x: int| i <= x < ts.len() implies ts[x] == ft[x - i] by {
        assert(ts.subrange(i, ts.len() as int)[x - i] == ft[x - i]);
    }
    match c {
        CommandV::Uci => {
            assert(ts[i] == "uci"@);
        },
        CommandV::Debug(v) => {
            assert(ts[i] == "debug"@);
            if v {
                assert(ts[i + 1] == "on"@);
            } else {
                assert(ts[i + 1] == "off"@);
                assert(ts[i + 1] != "on"@) by {
                    if ts[i + 1] == "on"@ {
                        assert("off"@.len() == 3 && "on"@.len() == 2);
                    }
                }
            }
        },
        CommandV::IsReady => {
            assert(ts[i] == "isready"@);
        },
        CommandV::SetOption { name, value } => {
            assert(ft[0] == "setoption"@);
            assert(ft[1] == "name"@);
            assert(ts[i] == "setoption"@);
            assert(ts[i + 1] == "name"@);
            let tn = spec_tokenize(name);
            let k = i + 2 + tn.len();
            assert forall|x: int| i + 2 <= x < k implies ts[x] == tn[x - i - 2] by {
                assert(ts[x] == ft[x - i]);
                assert(ft[x - i] == tn[x - i - 2]);
            }
            assert(forall|x: int| i + 2 <= x < k ==> ts[x] != "value"@);
            crate::token::lemma_tokenize_tokens(name);
            crate::token::lemma_tokenize_join(tn);
            match value {
                Some(v) => {
                    assert(ts[k] == ft[k - i]);
                    assert(ft[k - i] == "value"@);
                    tok::lemma_find_exact(ts, "value"@, i + 2, k);
                    assert(ts.subrange(i + 2, k) =~= tn);
                    crate::token::lemma_tokenize_tokens(v);
                    crate::token::lemma_tokenize_join(spec_tokenize(v));
                    assert forall|y: int| 0 <= y < ts.len() - k - 1 implies ts.subrange(
                        k + 1,
                        ts.len() as int,
                    )[y] == spec_tokenize(v)[y] by {
                        assert(ts[k + 1 + y] == ft[k + 1 + y - i]);
                        assert(ft[k + 1 + y - i] == spec_tokenize(v)[y]);
                    }
                    assert(ts.subrange(k + 1, ts.len() as int) =~= spec_tokenize(v));
                },
                None => {
                    assert(k == ts.len());
                    tok::lemma_find_exact(ts, "value"@, i + 2, k);
                    assert(ts.subrange(i + 2, k) =~= tn);
                },
            }
        },
        CommandV::Register(RegisterV::Later) => {
            assert(ts[i] == "register"@);
            assert(ts[i + 1] == "later"@);
        },
        CommandV::Register(RegisterV::Now { name, code }) => {
            assert(ft[0] == "register"@);
            assert(ft[1] == "name"@);
            assert(ts[i] == "register"@);
            assert(ts[i + 1] == "name"@);
            assert(ts[i + 1] != "later"@) by {
                if ts[i + 1] == "later"@ {
                    assert("name"@.len() == 4 && "later"@.len() == 5);
                }
            }
            let tn = spec_tokenize(name);
            let k = i + 2 + tn.len();
            assert forall|x: int| i + 2 <= x < k implies ts[x] == tn[x - i - 2] by {
                assert(ts[x] == ft[x - i]);
                assert(ft[x - i] == tn[x - i - 2]);
            }
            assert(forall|x: int| i + 2 <= x < k ==> ts[x] != "code"@);
            assert(ts[k] == ft[k - i]);
            assert(ft[k - i] == "code"@);
            tok::lemma_find_exact(ts, "code"@, i + 2, k);
            assert(ts.subrange(i + 2, k) =~= tn);
            crate::token::lemma_tokenize_tokens(name);
            crate::token::lemma_tokenize_join(tn);
            crate::token::lemma_tokenize_tokens(code);
            crate::token::lemma_tokenize_join(spec_tokenize(code));
            assert forall|y: int| 0 <= y < ts.len() - k - 1 implies ts.subrange(
                k + 1,
                ts.len() as int,
            )[y] == spec_tokenize(code)[y] by {
                assert(ts[k + 1 + y] == ft[k + 1 + y - i]);
                assert(ft[k + 1 + y - i] == spec_tokenize(code)[y]);
            }
            assert(ts.subrange(k + 1, ts.len() as int) =~= spec_tokenize(code));
        },
        CommandV::UciNewGame => {
            assert(ts[i] == "ucinewgame"@);
        },
        CommandV::Position { startpos, moves } => {
            assert(ft[0] == "position"@);
            assert(ts[i] == "position"@);
            if startpos == crate::chess::initial_fen() {
                assert(ft[1] == "startpos"@);
                assert(ts[i + 1] == "startpos"@);
                assert(ft[2] == "moves"@);
                assert(ts[i + 2] == "moves"@);
                assert(ts[i + 1] != "moves"@) by {
                    if ts[i + 1] == "moves"@ {
                        assert("startpos"@.len() == 8 && "moves"@.len() == 5);
                    }
                }
                tok::lemma_find_exact(ts, "moves"@, i + 1, i + 2);
                assert forall|y: int| 0 <= y < ts.len() - i - 3 implies ts.subrange(
                    i + 3,
                    ts.len() as int,
                )[y] == moves[y] by {
                    assert(ts[i + 3 + y] == ft[3 + y]);
                    assert(ft[3 + y] == moves[y]);
                }
                assert(ts.subrange(i + 3, ts.len() as int) =~= moves);
                lemma_first_bad_move(moves, 0, moves.len() as int);
            } else {
                let tf = spec_tokenize(startpos);
                assert(ft[1] == "fen"@);
                assert(ts[i + 1] == "fen"@);
                let k = i + 2 + tf.len();
                assert forall|x: int| i + 2 <= x < k implies ts[x] == tf[x - i - 2] by {
                    assert(ts[x] == ft[x - i]);
                    assert(ft[x - i] == tf[x - i - 2]);
                }
                assert(forall|x: int| i + 2 <= x < k ==> ts[x] != "moves"@);
                assert(ts[i + 1] != "moves"@) by {
                    if ts[i + 1] == "moves"@ {
                        assert("fen"@.len() == 3 && "moves"@.len() == 5);
                    }
                }
                assert(ts[k] == ft[k - i]);
                assert(ft[k - i] == "moves"@);
                tok::lemma_find_exact(ts, "moves"@, i + 1, k);
                assert(ts.subrange(i + 2, k) =~= tf);
                crate::token::lemma_tokenize_tokens(startpos);
                crate::token::lemma_tokenize_join(tf);
                assert(ts[i + 1] != "startpos"@) by {
                    if ts[i + 1] == "startpos"@ {
                        assert("fen"@.len() == 3 && "startpos"@.len() == 8);
                    }
                }
                assert forall|y: int| 0 <= y < ts.len() - k - 1 implies ts.subrange(
                    k + 1,
                    ts.len() as int,
                )[y] == moves[y] by {
                    assert(ts[k + 1 + y] == ft[k + 1 + y - i]);
                    assert(ft[k + 1 + y - i] == moves[y]);
                }
                assert(ts.subrange(k + 1, ts.len() as int) =~= moves);
                lemma_first_bad_move(moves, 0, moves.len() as int);
            }
        },
        CommandV::Go(g) => {
            assert(ft[0] == "go"@);
            assert(ts[i] == "go"@);
            assert forall|y: int| 0 <= y < ts.len() - i - 1 implies ts.subrange(
                i + 1,
                ts.len() as int,
            )[y] == go::spec_fmt_toks(g)[y] by {
                assert(ts[i + 1 + y] == ft[1 + y]);
                assert(ft[1 + y] == go::spec_fmt_toks(g)[y]);
            }
            assert(ts.subrange(i + 1, ts.len() as int) =~= go::spec_fmt_toks(g));
            go::lemma_round_trip(g, ts, i + 1);
            assert(wrap_go(Seq::<GoParseErrorV>::empty()) =~= Seq::<CommandParseErrorV>::empty());
        },
        CommandV::Stop => {
            assert(ts[i] == "stop"@);
        },
        CommandV::PonderHit => {
            assert(ts[i] == "ponderhit"@);
        },
        CommandV::Quit => {
            assert(ts[i] == "quit"@);
        },
    }
}

/// Every token a well-formed command writes is valid.
pub proof fn lemma_fmt_valid(c: CommandV)
    requires
        wf_command(c),
    ensures
        forall|j: int| 0 <= j < spec_fmt_toks(c).len() ==> is_tok(#[trigger] spec_fmt_toks(c)[j]),
{
    reveal_strlit("uci");
    reveal_strlit("debug");
    reveal_strlit("on");
    reveal_strlit("off");
    reveal_strlit("isready");
    reveal_strlit("setoption");
    reveal_strlit("name");
    reveal_strlit("value");
    reveal_strlit("register");
    reveal_strlit("later");
    reveal_strlit("code");
    reveal_strlit("ucinewgame");
    reveal_strlit("position");
    reveal_strlit("startpos");
    reveal_strlit("fen");
    reveal_strlit("moves");
    reveal_strlit("go");
    reveal_strlit("stop");
    reveal_strlit("ponderhit");
    reveal_strlit("quit");
    match c {
        CommandV::SetOption { name, value } => {
            crate::token::lemma_tokenize_tokens(name);
            crate::token::lemma_valid_concat(seq!["setoption"@, "name"@], spec_tokenize(name));
            match value {
                Some(v) => {
                    crate::token::lemma_tokenize_tokens(v);
                    crate::token::lemma_valid_concat(seq!["value"@], spec_tokenize(v));
                    crate::token::lemma_valid_concat(
                        seq!["setoption"@, "name"@] + spec_tokenize(name),
                        seq!["value"@] + spec_tokenize(v),
                    );
                },
                None => {
                    assert(spec_fmt_toks(c) =~= seq!["setoption"@, "name"@] + spec_tokenize(name));
                },
            }
        },
        CommandV::Register(RegisterV::Now { name, code }) => {
            crate::token::lemma_tokenize_tokens(name);
            crate::token::lemma_tokenize_tokens(code);
            crate::token::lemma_valid_concat(seq!["register"@, "name"@], spec_tokenize(name));
            crate::token::lemma_valid_concat(
                seq!["register"@, "name"@] + spec_tokenize(name),
                seq!["code"@],
            );
            crate::token::lemma_valid_concat(
                seq!["register"@, "name"@] + spec_tokenize(name) + seq!["code"@],
                spec_tokenize(code),
            );
        },
        CommandV::Position { startpos, moves } => {
            if startpos == crate::chess::initial_fen() {
                crate::token::lemma_valid_concat(
                    seq!["position"@] + seq!["startpos"@] + seq!["moves"@],
                    moves,
                );
                assert(seq!["position"@] + seq!["startpos"@] + seq!["moves"@] + moves
                    =~= spec_fmt_toks(c));
                assert forall|j: int| 0 <= j < spec_fmt_toks(c).len() implies is_tok(
                    spec_fmt_toks(c)[j],
                ) by {
                    assert(spec_fmt_toks(c)[j] == (seq!["position"@] + seq!["startpos"@] + seq![
                        "moves"@,
                    ] + moves)[j]);
                }
            } else {
                crate::token::lemma_tokenize_tokens(startpos);
                crate::token::lemma_valid_concat(
                    seq!["position"@] + (seq!["fen"@] + spec_tokenize(startpos)),
                    seq!["moves"@],
                );
                crate::token::lemma_valid_concat(
                    seq!["position"@] + (seq!["fen"@] + spec_tokenize(startpos)) + seq!["moves"@],
                    moves,
                );
                assert(seq!["position"@] + (seq!["fen"@] + spec_tokenize(startpos)) + seq![
                    "moves"@,
                ] + moves =~= spec_fmt_toks(c));
                assert forall|j: int| 0 <= j < spec_fmt_toks(c).len() implies is_tok(
                    spec_fmt_toks(c)[j],
                ) by {
                    assert(spec_fmt_toks(c)[j] == (seq!["position"@] + (seq!["fen"@]
                        + spec_tokenize(startpos)) + seq!["moves"@] + moves)[j]);
                }
            }
        },
        CommandV::Go(g) => {
            go::lemma_fmt_valid_from(g, 0);
            crate::token::lemma_valid_concat(seq!["go"@], go::spec_fmt_toks(g));
        },
        _ => {
        },
    }
}

/// Writing a well-formed command as a line and reading the line back yields
/// the command with no warning: the whole round trip, through the canonical
/// join and the tokenizer.
pub proof fn lemma_line_round_trip(c: CommandV)
    requires
        wf_command(c),
    ensures
        spec_parse(spec_tokenize(spec_join(spec_fmt_toks(c))), 0) == (
            Some(c),
            Seq::<CommandParseErrorV>::empty(),
        ),
{
    lemma_fmt_valid(c);
    crate::token::lemma_tokenize_join(spec_fmt_toks(c));
    let ts = spec_fmt_toks(c);
    assert(ts.subrange(0, ts.len() as int) =~= ts);
    lemma_round_trip(c, ts, 0);
}

} // verus!
