//! The chess values that cross the protocol: moves in UCI notation and
//! positions in FEN. Their meaning is the chess library's business; this
//! module holds them in validated textual form and delegates validation and
//! canonicalization to that library through trusted wrappers.

use vstd::prelude::*;

use crate::token::{is_body, is_tok, spec_tokenize};
use vstd::utf8::is_ascii_chars;

verus! {

/// Whether a token has the shape of a move in UCI notation: four or five
/// characters, starting with letter, digit, letter, digit. This is the
/// heuristic that delimits move lists, since the protocol has no terminator
/// for them; a fifth character (a promotion piece) is not inspected.
pub open spec fn spec_looks_like_move(t: Seq<char>) -> bool {
    (t.len() == 4 || t.len() == 5) && ('a' <= t[0] && t[0] <= 'z') && ('0' <= t[1] && t[1] <= '9')
        && ('a' <= t[2] && t[2] <= 'z') && ('0' <= t[3] && t[3] <= '9')
}

/// What the chess library accepts as a move in UCI notation: the null move
/// `0000`, or two squares and an optional promotion piece. Meaningful only
/// for ASCII text, which is all its parser can be given.
pub uninterp spec fn is_uci_move(s: Seq<char>) -> bool;

/// What the library accepts as a move token: ASCII text that the chess
/// library's UCI-move parser accepts.
pub open spec fn accepts_move(s: Seq<char>) -> bool {
    is_ascii_chars(s) && is_uci_move(s)
}

/// What the chess library makes of a FEN string: `None` when it does not
/// parse as a position, otherwise the canonical FEN of the parsed position.
pub uninterp spec fn fen_canon(s: Seq<char>) -> Option<Seq<char>>;

/// Relies on owlchess's `moves::uci::Move::from_str`: it accepts exactly the
/// null move `0000` and strings of source square, destination square and
/// optional promotion piece. Every accepted string is a whitespace-free
/// token of four or five characters in the letter-digit-letter-digit shape
/// (or `0000`). The parser slices its input by bytes and can panic when a
/// byte boundary falls inside a multi-byte character, so it may only be
/// given ASCII text.
#[verifier::external_body]
fn check_uci_move(s: &str) -> (r: bool)
    requires
        is_ascii_chars(s@),
    ensures
        r == is_uci_move(s@),
        r ==> is_tok(s@) && (s@ == "0000"@ || spec_looks_like_move(s@)),
{
    s.parse::<owlchess::moves::uci::Move>().is_ok()
}

/// Relies on owlchess's `moves::uci::Move`: the null move displays as `0000`,
/// which its parser accepts.
#[verifier::external_body]
fn null_move_text() -> (r: String)
    ensures
        r@ == "0000"@,
        is_uci_move(r@),
{
    owlchess::moves::uci::Move::Null.to_string()
}

/// Relies on owlchess's `RawBoard::from_fen` and `Display`: `from_fen`
/// accepts a FEN string or rejects it, and displaying the parsed position
/// yields its canonical FEN — a non-empty list of whitespace-free ASCII
/// fields joined by single spaces, which parses back to the same position
/// and displays the same way.
#[verifier::external_body]
fn fen_canon_of(s: &str) -> (r: Option<String>)
    ensures
        r is Some <==> fen_canon(s@) is Some,
        r matches Some(t) ==> fen_canon(s@) == Some(t@) && fen_canon(t@) == Some(t@) && is_body(t@)
            && spec_tokenize(t@).len() > 0,
{
    match owlchess::RawBoard::from_fen(s) {
        Ok(b) => Some(b.to_string()),
        Err(_) => None,
    }
}

/// The FEN of the standard starting position.
pub open spec fn initial_fen() -> Seq<char> {
    "rnbqkbnr/pppppppp/8/8/8/8/PPPPPPPP/RNBQKBNR w KQkq - 0 1"@
}

/// Relies on owlchess's `RawBoard::initial` and `Display`: the starting
/// position displays as the standard initial FEN, which is canonical.
#[verifier::external_body]
fn initial_fen_text() -> (r: String)
    ensures
        r@ == initial_fen(),
        fen_canon(r@) == Some(r@),
{
    owlchess::RawBoard::initial().to_string()
}

/// A chess move in UCI notation, held as its validated text.
#[derive(Debug, PartialEq, Eq, Hash)]
pub struct UciMove {
    text: String,
}

impl View for UciMove {
    type V = Seq<char>;

    closed spec fn view(&self) -> Seq<char> {
        self.text@
    }
}

impl Clone for UciMove {
    fn clone(&self) -> (r: Self)
        ensures
            r@ == self@,
    {
        proof {
            use_type_invariant(self);
        }
        UciMove { text: self.text.clone() }
    }
}

impl UciMove {
    #[verifier::type_invariant]
    pub open spec fn type_wf(&self) -> bool {
        accepts_move(self@) && is_tok(self@) && (self@ == "0000"@ || spec_looks_like_move(self@))
    }

    /// Validates a token as a move in UCI notation: it must be ASCII, and
    /// the chess library must accept it.
    pub fn new(s: &str) -> (r: Option<Self>)
        ensures
            r is Some <==> accepts_move(s@),
            r matches Some(m) ==> m@ == s@,
    {
        if !s.is_ascii() {
            return None;
        }
        if check_uci_move(s) {
            Some(UciMove { text: s.to_owned() })
        } else {
            None
        }
    }

    /// The null move, written `0000`.
    pub fn null() -> (r: Self)
        ensures
            r@ == "0000"@,
    {
        let text = null_move_text();
        proof {
            reveal_strlit("0000");
            assert(is_ascii_chars(text@));
        }
        UciMove { text }
    }

    /// Whether this is the null move.
    pub fn is_null(&self) -> (r: bool)
        ensures
            r == (self@ == "0000"@),
    {
        crate::token::str_eq(self.text.as_str(), "0000")
    }

    /// The move's text.
    pub fn as_str(&self) -> (r: &str)
        ensures
            r@ == self@,
    {
        self.text.as_str()
    }
}

/// A chess position, held as its canonical FEN text.
#[derive(Debug, PartialEq, Eq, Hash)]
pub struct RawBoard {
    fen: String,
}

impl View for RawBoard {
    type V = Seq<char>;

    closed spec fn view(&self) -> Seq<char> {
        self.fen@
    }
}

impl Clone for RawBoard {
    fn clone(&self) -> (r: Self)
        ensures
            r@ == self@,
    {
        proof {
            use_type_invariant(self);
        }
        RawBoard { fen: self.fen.clone() }
    }
}

impl RawBoard {
    #[verifier::type_invariant]
    pub open spec fn type_wf(&self) -> bool {
        fen_canon(self@) == Some(self@) && is_body(self@) && spec_tokenize(self@).len() > 0
    }

    /// Parses a FEN string through the chess library; the position is kept
    /// in canonical FEN.
    pub fn from_fen(s: &str) -> (r: Option<Self>)
        ensures
            r is Some <==> fen_canon(s@) is Some,
            r matches Some(b) ==> fen_canon(s@) == Some(b@),
    {
        match fen_canon_of(s) {
            Some(fen) => Some(RawBoard { fen }),
            None => None,
        }
    }

    /// The standard starting position.
    pub fn initial() -> (r: Self)
        ensures
            r@ == initial_fen(),
    {
        let fen = initial_fen_text();
        proof {
            lemma_initial_fen_body();
        }
        RawBoard { fen }
    }

    /// Whether this is the standard starting position.
    pub fn is_initial(&self) -> (r: bool)
        ensures
            r == (self@ == initial_fen()),
    {
        crate::token::str_eq(
            self.fen.as_str(),
            "rnbqkbnr/pppppppp/8/8/8/8/PPPPPPPP/RNBQKBNR w KQkq - 0 1",
        )
    }

    /// The position's FEN text.
    pub fn as_fen(&self) -> (r: &str)
        ensures
            r@ == self@,
    {
        self.fen.as_str()
    }
}

/// The initial FEN is a non-empty canonical multi-token body.
proof fn lemma_initial_fen_body()
    ensures
        is_body(initial_fen()),
        spec_tokenize(initial_fen()).len() > 0,
{
    reveal_strlit("rnbqkbnr/pppppppp/8/8/8/8/PPPPPPPP/RNBQKBNR w KQkq - 0 1");
    let s = initial_fen();
    let t0 = s.subrange(0, 43);
    let t1 = s.subrange(44, 45);
    let t2 = s.subrange(46, 50);
    let t3 = s.subrange(51, 52);
    let t4 = s.subrange(53, 54);
    let t5 = s.subrange(55, 56);
    let ts = seq![t0, t1, t2, t3, t4, t5];
    assert(is_tok(t0));
    assert(is_tok(t1));
    assert(is_tok(t2));
    assert(is_tok(t3));
    assert(is_tok(t4));
    assert(is_tok(t5));
    assert(forall|j: int| 0 <= j < ts.len() ==> is_tok(#[trigger] ts[j]));
    crate::token::lemma_tokenize_join(ts);
    let a0 = seq![t0];
    let a1 = a0.push(t1);
    let a2 = a1.push(t2);
    let a3 = a2.push(t3);
    let a4 = a3.push(t4);
    let a5 = a4.push(t5);
    crate::token::lemma_join_push(a0, t1);
    crate::token::lemma_join_push(a1, t2);
    crate::token::lemma_join_push(a2, t3);
    crate::token::lemma_join_push(a3, t4);
    crate::token::lemma_join_push(a4, t5);
    assert(a5 =~= ts);
    assert(crate::token::spec_join(ts) =~= s);
}

} // verus!
