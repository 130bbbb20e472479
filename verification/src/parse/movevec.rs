//! Reading and writing runs of moves. The protocol does not terminate move
//! lists, so the reader greedily consumes tokens that look like moves and
//! stops at the first that does not; tokens that look like moves but fail
//! move validation are reported.

use vstd::prelude::*;

use crate::chess::{accepts_move, spec_looks_like_move, UciMove};
use crate::msg::views;
use crate::token::{is_tok, tok_views, PushTokens, Token};
use crate::msg::{lemma_views_empty, lemma_views_push};
use crate::warn::{lemma_concat_assoc, lemma_concat_empty_l, lemma_concat_empty_r, lemma_concat_push, Sink};

verus! {

broadcast use {lemma_views_empty, lemma_views_push, lemma_concat_push, lemma_concat_empty_r, lemma_concat_empty_l, lemma_concat_assoc};

/// An error from reading one move of a run: its position within the run and
/// the offending token.
#[derive(Debug, Clone, PartialEq, Eq)]
pub struct MoveVecParseError {
    pub pos: usize,
    pub token: String,
}

/// The view of a move-run error.
pub struct MoveVecParseErrorV {
    pub pos: int,
    pub token: Seq<char>,
}

impl View for MoveVecParseError {
    type V = MoveVecParseErrorV;

    open spec fn view(&self) -> MoveVecParseErrorV {
        MoveVecParseErrorV { pos: self.pos as int, token: self.token@ }
    }
}

/// Whether a token has the shape of a move, as `spec_looks_like_move` says.
/// The shape is checked on characters; a token whose fifth character is not
/// ASCII can pass the shape test, and then fails move validation.
pub fn looks_like_move(tok: &Token) -> (r: bool)
    ensures
        r == spec_looks_like_move(tok@),
{
    let s = tok.as_str();
    let n = s.unicode_len();
    if n != 4 && n != 5 {
        return false;
    }
    let c0 = s.get_char(0);
    let c1 = s.get_char(1);
    let c2 = s.get_char(2);
    let c3 = s.get_char(3);
    ('a' <= c0 && c0 <= 'z') && ('0' <= c1 && c1 <= '9') && ('a' <= c2 && c2 <= 'z') && ('0' <= c3
        && c3 <= '9')
}

/// What reading a run of moves does, from position `i` with the moves `acc`
/// already read: tokens that look like moves are consumed; valid ones are
/// kept; an invalid one is skipped, ending the run in until-first-error mode;
/// the first token that does not look like a move ends the run unconsumed.
pub open spec fn spec_parse_moves(
    ts: Seq<Seq<char>>,
    i: int,
    until_first_error: bool,
    acc: Seq<Seq<char>>,
) -> (Seq<Seq<char>>, int, Seq<MoveVecParseErrorV>)
    decreases ts.len() - i when 0 <= i <= ts.len()
{
    if i >= ts.len() {
        (acc, i, Seq::<MoveVecParseErrorV>::empty())
    } else if !spec_looks_like_move(ts[i]) {
        (acc, i, Seq::<MoveVecParseErrorV>::empty())
    } else if accepts_move(ts[i]) {
        spec_parse_moves(ts, i + 1, until_first_error, acc.push(ts[i]))
    } else if until_first_error {
        (acc, i + 1, seq![MoveVecParseErrorV { pos: acc.len() as int, token: ts[i] }])
    } else {
        let (ms, j, w) = spec_parse_moves(ts, i + 1, until_first_error, acc);
        (ms, j, seq![MoveVecParseErrorV { pos: acc.len() as int, token: ts[i] }] + w)
    }
}

/// Reading a run of moves never moves the cursor backwards or past the end.
pub proof fn lemma_moves_bounds(
    ts: Seq<Seq<char>>,
    i: int,
    until_first_error: bool,
    acc: Seq<Seq<char>>,
)
    requires
        0 <= i <= ts.len(),
    ensures
        i <= spec_parse_moves(ts, i, until_first_error, acc).1 <= ts.len(),
    decreases ts.len() - i,
{
    if i < ts.len() && spec_looks_like_move(ts[i]) {
        if accepts_move(ts[i]) {
            lemma_moves_bounds(ts, i + 1, until_first_error, acc.push(ts[i]));
        } else if !until_first_error {
            lemma_moves_bounds(ts, i + 1, until_first_error, acc);
        }
    }
}

/// Reads a run of moves; invalid move-shaped tokens are reported with their
/// position in the run.
pub fn parse<S: Sink<MoveVecParseError>>(
    toks: &Vec<Token>,
    i: &mut usize,
    until_first_error: bool,
    warn: &mut S,
) -> (r: Vec<UciMove>)
    requires
        *old(i) <= toks@.len(),
    ensures
        ({
            let (ms, j, w) = spec_parse_moves(
                tok_views(toks@),
                *old(i) as int,
                until_first_error,
                Seq::empty(),
            );
            views(r@) == ms && *final(i) as int == j && views(final(warn).sunk()) == views(
                old(warn).sunk(),
            ) + w
        }),
        *old(i) <= *final(i) <= toks@.len(),
{
    let ghost ts = tok_views(toks@);
    let mut moves: Vec<UciMove> = Vec::new();
    proof {
        assert(views(moves@) =~= Seq::<Seq<char>>::empty());
    }
    loop
        invariant
            *old(i) <= *i <= toks@.len(),
            ts == tok_views(toks@),
            spec_parse_moves(ts, *old(i) as int, until_first_error, Seq::empty()).0
                == spec_parse_moves(ts, *i as int, until_first_error, views(moves@)).0,
            spec_parse_moves(ts, *old(i) as int, until_first_error, Seq::empty()).1
                == spec_parse_moves(ts, *i as int, until_first_error, views(moves@)).1,
            views(old(warn).sunk()) + spec_parse_moves(
                ts,
                *old(i) as int,
                until_first_error,
                Seq::empty(),
            ).2 == views(warn.sunk()) + spec_parse_moves(
                ts,
                *i as int,
                until_first_error,
                views(moves@),
            ).2,
        decreases toks@.len() - *i,
    {
        if *i >= toks.len() {
            return moves;
        }
        proof {
            assert(ts[*i as int] == toks@[*i as int]@);
        }
        let tok = &toks[*i];
        if !looks_like_move(tok) {
            return moves;
        }
        *i += 1;
        match UciMove::new(tok.as_str()) {
            Some(mv) => {
                proof {
                    assert(views(moves@.push(mv)) =~= views(moves@).push(ts[*i as int - 1]));
                }
                moves.push(mv);
            },
            None => {
                warn.warn(
                    MoveVecParseError { pos: moves.len(), token: tok.as_str().to_owned() },
                );
                if until_first_error {
                    return moves;
                }
            },
        }
    }
}

/// Writes each move of the run as one token.
pub fn fmt<P: PushTokens>(src: &Vec<UciMove>, f: &mut P)
    ensures
        final(f).toks() == old(f).toks() + views(src@),
{
    let mut j: usize = 0;
    proof {
        assert(old(f).toks() + views(src@).take(0) =~= old(f).toks());
    }
    while j < src.len()
        invariant
            j <= src@.len(),
            f.toks() == old(f).toks() + views(src@).take(j as int),
        decreases src@.len() - j,
    {
        let m = &src[j];
        proof {
            use_type_invariant(m);
            assert(views(src@)[j as int] == src@[j as int]@);
            assert((old(f).toks() + views(src@).take(j as int)).push(m@) =~= old(f).toks() + views(
                src@,
            ).take(j as int + 1));
        }
        f.push_kw(m.as_str());
        j += 1;
    }
    proof {
        assert(views(src@).take(src@.len() as int) =~= views(src@));
    }
}

/// Reading what writing produced recovers the run, consumes exactly its
/// tokens and reports nothing, provided every move is valid and move-shaped
/// and the token after the run does not look like a move.
pub proof fn lemma_round_trip(
    ms: Seq<Seq<char>>,
    ts: Seq<Seq<char>>,
    i: int,
    until_first_error: bool,
    acc: Seq<Seq<char>>,
)
    requires
        0 <= i,
        i + ms.len() <= ts.len(),
        ts.subrange(i, i + ms.len() as int) == ms,
        forall|j: int| 0 <= j < ms.len() ==> accepts_move(#[trigger] ms[j]) && spec_looks_like_move(
            ms[j],
        ),
        i + ms.len() == ts.len() || !spec_looks_like_move(ts[i + ms.len()]),
    ensures
        spec_parse_moves(ts, i, until_first_error, acc) == (
            acc + ms,
            i + ms.len() as int,
            Seq::<MoveVecParseErrorV>::empty(),
        ),
    decreases ms.len(),
{
    if ms.len() == 0 {
        assert(acc + ms =~= acc);
    } else {
        assert(ts[i] == ms[0]);
        assert(ts.subrange(i + 1, i + ms.len() as int) =~= ms.skip(1));
        lemma_round_trip(ms.skip(1), ts, i + 1, until_first_error, acc.push(ts[i]));
        assert(acc.push(ts[i]) + ms.skip(1) =~= acc + ms);
    }
}

} // verus!
