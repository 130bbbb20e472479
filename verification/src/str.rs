//! Typed protocol strings. Each one is a sequence of tokens joined by single
//! spaces; the restricted kinds additionally forbid the reserved keyword that
//! terminates their payload on the wire, and the option-related kinds compare
//! without regard to ASCII case.

use vstd::prelude::*;

use crate::token::{
    is_body, is_tok, lemma_join_push, lemma_tokenize_join, lemma_tokenize_concat,
    lemma_tokenize_single, spec_join, spec_tokenize, tok_views, tokenize, PushTokens, Token,
};

verus! {

/// An error from validating a typed string.
#[derive(Debug, Clone, PartialEq, Eq)]
pub enum StrError {
    /// The string contains the named reserved token.
    BadToken(String),
}

/// No token of `ts` equals `w`.
pub open spec fn no_tok(ts: Seq<Seq<char>>, w: Seq<char>) -> bool {
    forall|i: int| 0 <= i < ts.len() ==> #[trigger] ts[i] != w
}

/// The ASCII-lowercased code point of a character: letters `A` through `Z`
/// map to their lowercase counterparts, all else is unchanged.
pub open spec fn lower_ci(c: char) -> int {
    if 'A' <= c && c <= 'Z' {
        c as int + 32
    } else {
        c as int
    }
}

/// The ASCII-lowercased content of a string, as code points.
pub open spec fn lower_seq(s: Seq<char>) -> Seq<int> {
    s.map_values(|c: char| lower_ci(c))
}

/// Case-insensitive equality: equality of ASCII-lowercased content.
pub open spec fn ci_eq(a: Seq<char>, b: Seq<char>) -> bool {
    lower_seq(a) == lower_seq(b)
}

/// Case-insensitive equality is an equivalence relation.
pub proof fn lemma_ci_eq_equivalence(a: Seq<char>, b: Seq<char>, c: Seq<char>)
    ensures
        ci_eq(a, a),
        ci_eq(a, b) ==> ci_eq(b, a),
        ci_eq(a, b) && ci_eq(b, c) ==> ci_eq(a, c),
{
}

/// The ASCII-lowercased code point of a character.
fn lower_val(c: char) -> (r: u32)
    ensures
        r as int == lower_ci(c),
{
    let x = c as u32;
    if 65 <= x && x <= 90 {
        x + 32
    } else {
        x
    }
}

/// Compares two strings by ASCII-lowercased content.
fn ci_str_eq(a: &str, b: &str) -> (r: bool)
    ensures
        r == ci_eq(a@, b@),
{
    let n = a.unicode_len();
    let m = b.unicode_len();
    if n != m {
        proof {
            assert(lower_seq(a@).len() != lower_seq(b@).len());
        }
        return false;
    }
    let mut i: usize = 0;
    while i < n
        invariant
            n == a@.len(),
            n == b@.len(),
            i <= n,
            forall|x: int| 0 <= x < i ==> lower_ci(a@[x]) == lower_ci(b@[x]),
        decreases n - i,
    {
        let ca = a.get_char(i);
        let cb = b.get_char(i);
        if lower_val(ca) != lower_val(cb) {
            proof {
                assert(lower_seq(a@)[i as int] != lower_seq(b@)[i as int]);
            }
            return false;
        }
        i += 1;
    }
    proof {
        assert(lower_seq(a@) =~= lower_seq(b@));
    }
    true
}

/// Joins the texts of `toks` with single spaces. The result is in canonical
/// multi-token form.
fn join_tokens(toks: &Vec<Token>) -> (r: String)
    ensures
        r@ == spec_join(tok_views(toks@)),
        is_body(r@),
        spec_tokenize(r@) == tok_views(toks@),
{
    let mut s = String::new();
    let mut i: usize = 0;
    proof {
        assert(tok_views(toks@.take(0)) =~= Seq::<Seq<char>>::empty());
        reveal_strlit(" ");
    }
    while i < toks.len()
        invariant
            i <= toks@.len(),
            s@ == spec_join(tok_views(toks@.take(i as int))),
            forall|x: int| 0 <= x < i ==> is_tok(#[trigger] toks@[x]@),
        decreases toks@.len() - i,
    {
        let t = &toks[i];
        proof {
            use_type_invariant(t);
            assert(tok_views(toks@.take(i as int + 1)) =~= tok_views(toks@.take(i as int)).push(
                t@,
            ));
            lemma_join_push(tok_views(toks@.take(i as int)), t@);
            assert(tok_views(toks@.take(i as int)).len() == i);
            reveal_strlit(" ");
        }
        if i > 0 {
            s.append(" ");
        }
        s.append(t.as_str());
        i += 1;
    }
    proof {
        assert(toks@.take(toks@.len() as int) =~= toks@);
        assert(forall|j: int| 0 <= j < tok_views(toks@).len() ==> is_tok(
            #[trigger] tok_views(toks@)[j],
        )) by {
            assert(forall|j: int| 0 <= j < toks@.len() ==> tok_views(toks@)[j] == toks@[j]@);
        }
        lemma_tokenize_join(tok_views(toks@));
    }
    s
}

/// A free-form protocol string: any sequence of tokens, joined by single
/// spaces, compared with case significant.
#[derive(Debug, PartialEq, Eq, PartialOrd, Ord, Hash)]
pub struct UciString(String);

impl View for UciString {
    type V = Seq<char>;

    closed spec fn view(&self) -> Seq<char> {
        self.0@
    }
}

impl Clone for UciString {
    fn clone(&self) -> (r: Self)
        ensures
            r@ == self@,
    {
        proof {
            use_type_invariant(self);
        }
        UciString(self.0.clone())
    }
}

impl Default for UciString {
    /// The default string is empty.
    fn default() -> (r: Self)
        ensures
            r@ == Seq::<char>::empty(),
    {
        proof {
            lemma_empty_is_body();
        }
        UciString(String::new())
    }
}

/// The empty string is in canonical multi-token form.
proof fn lemma_empty_is_body()
    ensures
        is_body(Seq::<char>::empty()),
        spec_tokenize(Seq::<char>::empty()) == Seq::<Seq<char>>::empty(),
{
    assert(spec_tokenize(Seq::<char>::empty()) =~= Seq::<Seq<char>>::empty());
}

impl UciString {
    #[verifier::type_invariant]
    pub open spec fn type_wf(&self) -> bool {
        is_body(self@)
    }

    /// The empty string.
    pub fn new() -> (r: Self)
        ensures
            r@ == Seq::<char>::empty(),
    {
        Self::default()
    }

    /// The canonical join of the given tokens.
    pub fn from_tokens(toks: &Vec<Token>) -> (r: Self)
        ensures
            r@ == spec_join(tok_views(toks@)),
    {
        UciString(join_tokens(toks))
    }

    /// Reads a free-form string from a line fragment: the fragment's tokens,
    /// joined canonically. Never fails.
    pub fn from_str(s: &str) -> (r: Self)
        ensures
            r@ == spec_join(spec_tokenize(s@)),
    {
        let toks = tokenize(s);
        Self::from_tokens(&toks)
    }

    /// The text of the string.
    pub fn as_str(&self) -> (r: &str)
        ensures
            r@ == self@,
    {
        self.0.as_str()
    }

    /// Gives up the string as its text.
    pub fn into_string(self) -> (r: String)
        ensures
            r@ == self@,
    {
        self.0
    }

    /// Appends one token's text, preceded by a space unless the string is
    /// empty.
    fn append_tok(&mut self, s: &str)
        requires
            is_tok(s@),
        ensures
            final(self)@ == (if old(self)@.len() == 0 {
                s@
            } else {
                old(self)@ + seq![' '] + s@
            }),
            spec_tokenize(final(self)@) == spec_tokenize(old(self)@).push(s@),
    {
        proof {
            use_type_invariant(&*self);
            reveal_strlit(" ");
        }
        let ghost olds = self@;
        let mut t = self.0.clone();
        if t.as_str().is_empty() {
            t.append(s);
            proof {
                lemma_tokenize_single(s@);
                lemma_empty_is_body();
                assert(t@ =~= s@);
                assert(spec_tokenize(t@) =~= spec_tokenize(olds).push(s@));
            }
        } else {
            t.append(" ");
            t.append(s);
            proof {
                let b = seq![' '] + s@;
                assert(t@ =~= olds + b);
                lemma_tokenize_concat(olds, b);
                assert(b.skip(1) =~= s@);
                assert(spec_tokenize(b) == spec_tokenize(s@));
                lemma_tokenize_single(s@);
                assert(spec_tokenize(t@) =~= spec_tokenize(olds).push(s@));
            }
        }
        proof {
            if olds.len() > 0 {
                assert(t@ =~= olds + seq![' '] + s@);
            }
            lemma_body_extend(olds, t@, s@);
        }
        *self = UciString(t);
    }
}

/// Extending a canonical body by a separating space and one token keeps it
/// canonical.
proof fn lemma_body_extend(olds: Seq<char>, news: Seq<char>, t: Seq<char>)
    requires
        is_body(olds),
        is_tok(t),
        spec_tokenize(news) == spec_tokenize(olds).push(t),
        news == (if olds.len() == 0 {
            t
        } else {
            olds + seq![' '] + t
        }),
    ensures
        is_body(news),
{
    lemma_join_push(spec_tokenize(olds), t);
    if olds.len() == 0 {
        lemma_empty_is_body();
        assert(spec_tokenize(olds) =~= Seq::<Seq<char>>::empty());
        assert(spec_join(spec_tokenize(news)) == t);
    } else {
        assert(spec_tokenize(olds).len() > 0) by {
            if spec_tokenize(olds).len() == 0 {
                assert(spec_join(spec_tokenize(olds)) =~= Seq::<char>::empty());
            }
        }
        assert(spec_join(spec_tokenize(news)) == spec_join(spec_tokenize(olds)) + seq![' '] + t);
        assert(spec_join(spec_tokenize(news)) =~= news);
    }
}

impl PushTokens for UciString {
    closed spec fn toks(&self) -> Seq<Seq<char>> {
        spec_tokenize(self@)
    }

    fn push(&mut self, token: &Token) {
        proof {
            use_type_invariant(token);
        }
        self.append_tok(token.as_str());
    }

    fn push_kw(&mut self, kw: &str) {
        self.append_tok(kw);
    }

    fn push_body(&mut self, body: &str) {
        if body.is_empty() {
            proof {
                lemma_empty_is_body();
                assert(spec_tokenize(body@) =~= Seq::<Seq<char>>::empty());
                assert(self.toks() + spec_tokenize(body@) =~= self.toks());
            }
            return ;
        }
        proof {
            use_type_invariant(&*self);
            reveal_strlit(" ");
        }
        let ghost olds = self@;
        let mut t = self.0.clone();
        if t.as_str().is_empty() {
            t.append(body);
            proof {
                assert(t@ =~= body@);
                assert(spec_tokenize(olds) =~= Seq::<Seq<char>>::empty()) by {
                    lemma_empty_is_body();
                }
                assert(spec_tokenize(t@) =~= spec_tokenize(olds) + spec_tokenize(body@));
            }
        } else {
            t.append(" ");
            t.append(body);
            proof {
                let b = seq![' '] + body@;
                assert(t@ =~= olds + b);
                lemma_tokenize_concat(olds, b);
                assert(b.skip(1) =~= body@);
                assert(spec_tokenize(t@) =~= spec_tokenize(olds) + spec_tokenize(body@));
            }
        }
        proof {
            if olds.len() > 0 {
                assert(t@ =~= olds + seq![' '] + body@);
            }
            lemma_body_concat(olds, t@, body@);
        }
        *self = UciString(t);
    }
}

/// Joins the texts of `toks` with single spaces after checking that no token
/// equals one of the two forbidden words; on a hit, returns the forbidden
/// word matched by the first offending token.
fn join_tokens_checked(toks: &Vec<Token>, bad1: &str, bad2: &str) -> (r: Result<String, String>)
    requires
        is_tok(bad1@),
        is_tok(bad2@),
    ensures
        match r {
            Ok(s) => no_tok(tok_views(toks@), bad1@) && no_tok(tok_views(toks@), bad2@) && s@
                == spec_join(tok_views(toks@)) && is_body(s@) && spec_tokenize(s@) == tok_views(
                toks@,
            ),
            Err(w) => (w@ == bad1@ || w@ == bad2@) && !(no_tok(tok_views(toks@), bad1@) && no_tok(
                tok_views(toks@),
                bad2@,
            )) && (exists|x: int| 0 <= x < toks@.len() && #[trigger] tok_views(toks@)[x] == w@),
        },
{
    let mut i: usize = 0;
    while i < toks.len()
        invariant
            i <= toks@.len(),
            forall|x: int| 0 <= x < i ==> #[trigger] toks@[x]@ != bad1@ && toks@[x]@ != bad2@,
        decreases toks@.len() - i,
    {
        if toks[i].is_kw(bad1) {
            proof {
                assert(tok_views(toks@)[i as int] == toks@[i as int]@);
            }
            return Err(bad1.to_owned());
        }
        if toks[i].is_kw(bad2) {
            proof {
                assert(tok_views(toks@)[i as int] == toks@[i as int]@);
            }
            return Err(bad2.to_owned());
        }
        i += 1;
    }
    proof {
        assert(forall|x: int| 0 <= x < toks@.len() ==> #[trigger] tok_views(toks@)[x] == toks@[x]@);
    }
    Ok(join_tokens(toks))
}

/// A restricted protocol string which may not contain the reserved tokens
/// `type` or `value`; it names an engine option and compares without regard
/// to ASCII case.
#[derive(Debug)]
pub struct OptName(String);

impl View for OptName {
    type V = Seq<char>;

    closed spec fn view(&self) -> Seq<char> {
        self.0@
    }
}

impl Clone for OptName {
    fn clone(&self) -> (r: Self)
        ensures
            r@ == self@,
    {
        proof {
            use_type_invariant(self);
        }
        OptName(self.0.clone())
    }
}

impl Default for OptName {
    /// The default name is empty.
    fn default() -> (r: Self)
        ensures
            r@ == Seq::<char>::empty(),
    {
        proof {
            lemma_empty_is_body();
        }
        OptName(String::new())
    }
}

impl PartialEq for OptName {
    /// Option names compare by ASCII-lowercased content.
    fn eq(&self, other: &Self) -> (r: bool) {
        ci_str_eq(self.0.as_str(), other.0.as_str())
    }
}

impl Eq for OptName {

}

impl vstd::std_specs::cmp::PartialEqSpecImpl for OptName {
    open spec fn obeys_eq_spec() -> bool {
        true
    }

    open spec fn eq_spec(&self, other: &Self) -> bool {
        ci_eq(self@, other@)
    }
}

impl OptName {
    #[verifier::type_invariant]
    pub open spec fn type_wf(&self) -> bool {
        is_body(self@) && no_tok(spec_tokenize(self@), "type"@) && no_tok(
            spec_tokenize(self@),
            "value"@,
        )
    }

    /// Validates and joins tokens into an option name: no token may be
    /// `type` or `value`. On failure, the error names the reserved token of
    /// the first offending position.
    pub fn from_tokens(toks: &Vec<Token>) -> (r: Result<Self, StrError>)
        ensures
            match r {
                Ok(n) => n@ == spec_join(tok_views(toks@)) && no_tok(tok_views(toks@), "type"@)
                    && no_tok(tok_views(toks@), "value"@),
                Err(StrError::BadToken(w)) => (w@ == "type"@ || w@ == "value"@) && !(no_tok(
                    tok_views(toks@),
                    "type"@,
                ) && no_tok(tok_views(toks@), "value"@)) && (exists|x: int|
                    0 <= x < toks@.len() && #[trigger] tok_views(toks@)[x] == w@),
            },
    {
        proof {
            lemma_kw_tok("type");
            lemma_kw_tok("value");
        }
        match join_tokens_checked(toks, "type", "value") {
            Ok(s) => Ok(OptName(s)),
            Err(w) => Err(StrError::BadToken(w)),
        }
    }

    /// Validates a whole string as an option name by tokenizing it first.
    pub fn from_str(s: &str) -> (r: Result<Self, StrError>)
        ensures
            match r {
                Ok(n) => n@ == spec_join(spec_tokenize(s@)) && no_tok(spec_tokenize(s@), "type"@)
                    && no_tok(spec_tokenize(s@), "value"@),
                Err(StrError::BadToken(w)) => (w@ == "type"@ || w@ == "value"@) && !(no_tok(
                    spec_tokenize(s@),
                    "type"@,
                ) && no_tok(spec_tokenize(s@), "value"@)) && (exists|x: int|
                    0 <= x < spec_tokenize(s@).len() && #[trigger] spec_tokenize(s@)[x] == w@),
            },
    {
        let toks = tokenize(s);
        proof {
            assert(tok_views(toks@) =~= spec_tokenize(s@));
        }
        Self::from_tokens(&toks)
    }

    /// The name's text, case preserved.
    pub fn as_str(&self) -> (r: &str)
        ensures
            r@ == self@,
    {
        self.0.as_str()
    }
}

/// A restricted protocol string which may not contain the reserved token
/// `var`; it names one value of a combo option and compares without regard
/// to ASCII case.
#[derive(Debug)]
pub struct OptComboVar(String);

impl View for OptComboVar {
    type V = Seq<char>;

    closed spec fn view(&self) -> Seq<char> {
        self.0@
    }
}

impl Clone for OptComboVar {
    fn clone(&self) -> (r: Self)
        ensures
            r@ == self@,
    {
        proof {
            use_type_invariant(self);
        }
        OptComboVar(self.0.clone())
    }
}

impl Default for OptComboVar {
    /// The default variant text is empty.
    fn default() -> (r: Self)
        ensures
            r@ == Seq::<char>::empty(),
    {
        proof {
            lemma_empty_is_body();
        }
        OptComboVar(String::new())
    }
}

impl PartialEq for OptComboVar {
    /// Combo variants compare by ASCII-lowercased content.
    fn eq(&self, other: &Self) -> (r: bool) {
        ci_str_eq(self.0.as_str(), other.0.as_str())
    }
}

impl Eq for OptComboVar {

}

impl vstd::std_specs::cmp::PartialEqSpecImpl for OptComboVar {
    open spec fn obeys_eq_spec() -> bool {
        true
    }

    open spec fn eq_spec(&self, other: &Self) -> bool {
        ci_eq(self@, other@)
    }
}

impl OptComboVar {
    #[verifier::type_invariant]
    pub open spec fn type_wf(&self) -> bool {
        is_body(self@) && no_tok(spec_tokenize(self@), "var"@)
    }

    /// Validates and joins tokens into a combo variant: no token may be
    /// `var`.
    pub fn from_tokens(toks: &Vec<Token>) -> (r: Result<Self, StrError>)
        ensures
            match r {
                Ok(n) => n@ == spec_join(tok_views(toks@)) && no_tok(tok_views(toks@), "var"@),
                Err(StrError::BadToken(w)) => w@ == "var"@ && !no_tok(tok_views(toks@), "var"@)
                    && (exists|x: int|
                    0 <= x < toks@.len() && #[trigger] tok_views(toks@)[x] == w@),
            },
    {
        proof {
            lemma_kw_tok("var");
        }
        match join_tokens_checked(toks, "var", "var") {
            Ok(s) => Ok(OptComboVar(s)),
            Err(w) => Err(StrError::BadToken(w)),
        }
    }

    /// Validates a whole string as a combo variant by tokenizing it first.
    pub fn from_str(s: &str) -> (r: Result<Self, StrError>)
        ensures
            match r {
                Ok(n) => n@ == spec_join(spec_tokenize(s@)) && no_tok(spec_tokenize(s@), "var"@),
                Err(StrError::BadToken(w)) => w@ == "var"@ && !no_tok(spec_tokenize(s@), "var"@)
                    && (exists|x: int|
                    0 <= x < spec_tokenize(s@).len() && #[trigger] spec_tokenize(s@)[x] == w@),
            },
    {
        let toks = tokenize(s);
        proof {
            assert(tok_views(toks@) =~= spec_tokenize(s@));
        }
        Self::from_tokens(&toks)
    }

    /// The variant's text, case preserved.
    pub fn as_str(&self) -> (r: &str)
        ensures
            r@ == self@,
    {
        self.0.as_str()
    }
}

/// A restricted protocol string which may not contain the reserved token
/// `code`; it names a registering user and compares with case significant.
#[derive(Debug, PartialEq, Eq, Hash)]
pub struct RegisterName(String);

impl View for RegisterName {
    type V = Seq<char>;

    closed spec fn view(&self) -> Seq<char> {
        self.0@
    }
}

impl Clone for RegisterName {
    fn clone(&self) -> (r: Self)
        ensures
            r@ == self@,
    {
        proof {
            use_type_invariant(self);
        }
        RegisterName(self.0.clone())
    }
}

impl Default for RegisterName {
    /// The default name is empty.
    fn default() -> (r: Self)
        ensures
            r@ == Seq::<char>::empty(),
    {
        proof {
            lemma_empty_is_body();
        }
        RegisterName(String::new())
    }
}

impl RegisterName {
    #[verifier::type_invariant]
    pub open spec fn type_wf(&self) -> bool {
        is_body(self@) && no_tok(spec_tokenize(self@), "code"@)
    }

    /// Validates and joins tokens into a register name: no token may be
    /// `code`.
    pub fn from_tokens(toks: &Vec<Token>) -> (r: Result<Self, StrError>)
        ensures
            match r {
                Ok(n) => n@ == spec_join(tok_views(toks@)) && no_tok(tok_views(toks@), "code"@),
                Err(StrError::BadToken(w)) => w@ == "code"@ && !no_tok(tok_views(toks@), "code"@)
                    && (exists|x: int|
                    0 <= x < toks@.len() && #[trigger] tok_views(toks@)[x] == w@),
            },
    {
        proof {
            lemma_kw_tok("code");
        }
        match join_tokens_checked(toks, "code", "code") {
            Ok(s) => Ok(RegisterName(s)),
            Err(w) => Err(StrError::BadToken(w)),
        }
    }

    /// Validates a whole string as a register name by tokenizing it first.
    pub fn from_str(s: &str) -> (r: Result<Self, StrError>)
        ensures
            match r {
                Ok(n) => n@ == spec_join(spec_tokenize(s@)) && no_tok(spec_tokenize(s@), "code"@),
                Err(StrError::BadToken(w)) => w@ == "code"@ && !no_tok(spec_tokenize(s@), "code"@)
                    && (exists|x: int|
                    0 <= x < spec_tokenize(s@).len() && #[trigger] spec_tokenize(s@)[x] == w@),
            },
    {
        let toks = tokenize(s);
        proof {
            assert(tok_views(toks@) =~= spec_tokenize(s@));
        }
        Self::from_tokens(&toks)
    }

    /// The name's text.
    pub fn as_str(&self) -> (r: &str)
        ensures
            r@ == self@,
    {
        self.0.as_str()
    }
}

/// The reserved words of the protocol are themselves valid tokens.
proof fn lemma_kw_tok(s: &str)
    requires
        s@ =~= "type"@ || s@ =~= "value"@ || s@ =~= "var"@ || s@ =~= "code"@,
    ensures
        is_tok(s@),
{
    reveal_strlit("type");
    reveal_strlit("value");
    reveal_strlit("var");
    reveal_strlit("code");
}

/// Concatenating two canonical bodies with a separating space keeps the
/// result canonical.
proof fn lemma_body_concat(olds: Seq<char>, news: Seq<char>, b: Seq<char>)
    requires
        is_body(olds),
        is_body(b),
        b.len() > 0,
        spec_tokenize(news) == spec_tokenize(olds) + spec_tokenize(b),
        news == (if olds.len() == 0 {
            b
        } else {
            olds + seq![' '] + b
        }),
    ensures
        is_body(news),
{
    if olds.len() == 0 {
        lemma_empty_is_body();
        assert(spec_tokenize(olds) =~= Seq::<Seq<char>>::empty());
        assert(spec_tokenize(news) =~= spec_tokenize(b));
    } else {
        assert(spec_tokenize(olds).len() > 0) by {
            if spec_tokenize(olds).len() == 0 {
                assert(spec_join(spec_tokenize(olds)) =~= Seq::<char>::empty());
            }
        }
        assert(spec_tokenize(b).len() > 0) by {
            if spec_tokenize(b).len() == 0 {
                assert(spec_join(spec_tokenize(b)) =~= Seq::<char>::empty());
            }
        }
        crate::token::lemma_join_concat(spec_tokenize(olds), spec_tokenize(b));
        assert(spec_join(spec_tokenize(news)) =~= news);
    }
}

/// The tokens a `UciString` buffer has received are exactly the tokens of
/// its text.
pub proof fn lemma_ucistring_toks(u: &UciString)
    ensures
        u.toks() == spec_tokenize(u@),
{
}

} // verus!

