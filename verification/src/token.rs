//! The token model: a `Token` is a non-empty piece of text without
//! whitespace, and a protocol line is the whitespace-separated sequence of its
//! tokens. This module defines tokenization, the canonical single-space join,
//! and the lemmas connecting the two.

use vstd::prelude::*;

use crate::is_space_c;
use crate::is_space;

verus! {

/// A valid token text: non-empty, with no whitespace characters.
pub open spec fn is_tok(t: Seq<char>) -> bool {
    t.len() > 0 && (forall|i: int| 0 <= i < t.len() ==> !is_space_c(#[trigger] t[i]))
}

/// The tokens of a line, in order: maximal runs of non-whitespace characters.
pub open spec fn spec_tokenize(s: Seq<char>) -> Seq<Seq<char>>
    decreases s.len(),
{
    if s.len() == 0 {
        Seq::empty()
    } else {
        let rest = spec_tokenize(s.skip(1));
        if is_space_c(s[0]) {
            rest
        } else if s.len() > 1 && !is_space_c(s[1]) {
            seq![seq![s[0]] + rest[0]] + rest.skip(1)
        } else {
            seq![seq![s[0]]] + rest
        }
    }
}

/// Token texts joined by single spaces, with no leading or trailing space.
pub open spec fn spec_join(ts: Seq<Seq<char>>) -> Seq<char>
    decreases ts.len(),
{
    if ts.len() == 0 {
        Seq::empty()
    } else if ts.len() == 1 {
        ts[0]
    } else {
        ts[0] + seq![' '] + spec_join(ts.skip(1))
    }
}

/// A string in canonical multi-token form: it equals its own tokens joined by
/// single spaces. Such strings round-trip through tokenization.
pub open spec fn is_body(u: Seq<char>) -> bool {
    u == spec_join(spec_tokenize(u))
}

/// The texts of a sequence of tokens.
pub open spec fn tok_views(ts: Seq<Token>) -> Seq<Seq<char>> {
    ts.map_values(|t: Token| t@)
}

/// A maximal non-whitespace run at the front of `u` is the first token.
pub proof fn lemma_tokenize_run(u: Seq<char>, k: int)
    requires
        0 < k <= u.len(),
        forall|x: int| 0 <= x < k ==> !is_space_c(#[trigger] u[x]),
        k == u.len() || is_space_c(u[k]),
    ensures
        spec_tokenize(u) == seq![u.take(k)] + spec_tokenize(u.skip(k)),
    decreases k,
{
    if k == 1 {
        assert(u.take(1) =~= seq![u[0]]);
        if u.len() > 1 && !is_space_c(u[1]) {
            assert(false);
        } else {
            assert(spec_tokenize(u) =~= seq![u.take(1)] + spec_tokenize(u.skip(1)));
        }
    } else {
        let u1 = u.skip(1);
        assert(forall|x: int| 0 <= x < k - 1 ==> !is_space_c(#[trigger] u1[x]));
        lemma_tokenize_run(u1, k - 1);
        let rest = spec_tokenize(u1);
        assert(rest == seq![u1.take(k - 1)] + spec_tokenize(u1.skip(k - 1)));
        assert(rest[0] == u1.take(k - 1));
        assert(seq![u[0]] + u1.take(k - 1) =~= u.take(k));
        assert(rest.skip(1) =~= spec_tokenize(u1.skip(k - 1)));
        assert(u1.skip(k - 1) =~= u.skip(k));
        assert(u.len() > 1 && !is_space_c(u[1]));
        assert(spec_tokenize(u) =~= seq![u.take(k)] + spec_tokenize(u.skip(k)));
    }
}

/// Tokenizing a single valid token yields exactly that token.
pub proof fn lemma_tokenize_single(t: Seq<char>)
    requires
        is_tok(t),
    ensures
        spec_tokenize(t) == seq![t],
{
    lemma_tokenize_run(t, t.len() as int);
    assert(t.take(t.len() as int) =~= t);
    assert(t.skip(t.len() as int) =~= Seq::<char>::empty());
    assert(spec_tokenize(t) =~= seq![t]);
}

/// Tokenization distributes over concatenation at a whitespace boundary.
pub proof fn lemma_tokenize_concat(a: Seq<char>, b: Seq<char>)
    requires
        b.len() > 0,
        is_space_c(b[0]),
    ensures
        spec_tokenize(a + b) == spec_tokenize(a) + spec_tokenize(b),
    decreases a.len(),
{
    if a.len() == 0 {
        assert(a + b =~= b);
        assert(spec_tokenize(a) + spec_tokenize(b) =~= spec_tokenize(b));
    } else {
        let s = a + b;
        assert(s[0] == a[0]);
        assert(s.skip(1) =~= a.skip(1) + b);
        lemma_tokenize_concat(a.skip(1), b);
        let rest = spec_tokenize(a.skip(1)) + spec_tokenize(b);
        assert(spec_tokenize(s.skip(1)) == rest);
        if is_space_c(a[0]) {
            assert(spec_tokenize(s) == rest);
            assert(spec_tokenize(a) == spec_tokenize(a.skip(1)));
        } else {
            if s.len() > 1 && !is_space_c(s[1]) {
                // a single-char `a` would put the space b[0] at s[1]
                assert(a.len() > 1) by {
                    if a.len() == 1 {
                        assert(s[1] == b[0]);
                    }
                }
                assert(s[1] == a[1]);
                let ra = spec_tokenize(a.skip(1));
                assert(ra.len() >= 1) by {
                    assert(a.skip(1)[0] == a[1]);
                    assert(a.skip(1).len() > 0);
                }
                assert(rest[0] == ra[0]);
                assert(rest.skip(1) =~= ra.skip(1) + spec_tokenize(b));
                assert(spec_tokenize(a) == seq![seq![a[0]] + ra[0]] + ra.skip(1));
                assert(spec_tokenize(s) =~= spec_tokenize(a) + spec_tokenize(b));
            } else {
                assert(is_space_c(s[1]));
                if a.len() > 1 {
                    assert(s[1] == a[1]);
                    assert(spec_tokenize(a) == seq![seq![a[0]]] + spec_tokenize(a.skip(1)));
                } else {
                    assert(a.skip(1).len() == 0);
                    assert(spec_tokenize(a) == seq![seq![a[0]]] + spec_tokenize(a.skip(1)));
                }
                assert(spec_tokenize(s) =~= spec_tokenize(a) + spec_tokenize(b));
            }
        }
    }
}

/// Every token produced by tokenization is non-empty and whitespace-free.
pub proof fn lemma_tokenize_tokens(s: Seq<char>)
    ensures
        forall|j: int| 0 <= j < spec_tokenize(s).len() ==> is_tok(#[trigger] spec_tokenize(s)[j]),
    decreases s.len(),
{
    if s.len() == 0 {
    } else {
        lemma_tokenize_tokens(s.skip(1));
        let rest = spec_tokenize(s.skip(1));
        if is_space_c(s[0]) {
        } else if s.len() > 1 && !is_space_c(s[1]) {
            assert(rest.len() >= 1) by {
                assert(s.skip(1)[0] == s[1]);
                assert(s.skip(1).len() > 0);
            }
            let t0 = seq![s[0]] + rest[0];
            assert(is_tok(t0)) by {
                assert(is_tok(rest[0]));
                assert(forall|i: int| 0 <= i < t0.len() ==> !is_space_c(#[trigger] t0[i])) by {
                    assert(forall|i: int| 1 <= i < t0.len() ==> t0[i] == rest[0][i - 1]);
                }
            }
            assert(forall|j: int| 0 <= j < spec_tokenize(s).len() ==> is_tok(
                #[trigger] spec_tokenize(s)[j],
            )) by {
                assert(forall|j: int| 1 <= j < spec_tokenize(s).len() ==> spec_tokenize(s)[j]
                    == rest[j]);
            }
        } else {
            assert(is_tok(seq![s[0]]));
            assert(forall|j: int| 1 <= j < spec_tokenize(s).len() ==> spec_tokenize(s)[j] == rest[j - 1]);
        }
    }
}

/// Joining a list of valid tokens and re-tokenizing recovers the list; the
/// joined string is in canonical body form.
pub proof fn lemma_tokenize_join(ts: Seq<Seq<char>>)
    requires
        forall|j: int| 0 <= j < ts.len() ==> is_tok(#[trigger] ts[j]),
    ensures
        spec_tokenize(spec_join(ts)) == ts,
        is_body(spec_join(ts)),
    decreases ts.len(),
{
    if ts.len() == 0 {
        assert(spec_tokenize(spec_join(ts)) =~= ts);
    } else if ts.len() == 1 {
        lemma_tokenize_single(ts[0]);
        assert(spec_tokenize(spec_join(ts)) =~= ts);
    } else {
        lemma_tokenize_join(ts.skip(1));
        let b = seq![' '] + spec_join(ts.skip(1));
        assert(spec_join(ts) =~= ts[0] + b);
        lemma_tokenize_concat(ts[0], b);
        lemma_tokenize_single(ts[0]);
        assert(b.skip(1) =~= spec_join(ts.skip(1)));
        assert(spec_tokenize(b) == spec_tokenize(spec_join(ts.skip(1))));
        assert(spec_tokenize(spec_join(ts)) =~= ts);
    }
}

/// Joining distributes over concatenation of non-empty token lists.
pub proof fn lemma_join_concat(a: Seq<Seq<char>>, b: Seq<Seq<char>>)
    requires
        a.len() > 0,
        b.len() > 0,
    ensures
        spec_join(a + b) == spec_join(a) + seq![' '] + spec_join(b),
    decreases a.len(),
{
    if a.len() == 1 {
        let s = a + b;
        assert(s.len() >= 2);
        assert(s[0] == a[0]);
        assert(s.skip(1) =~= b);
        assert(spec_join(s) == a[0] + seq![' '] + spec_join(b));
        assert(spec_join(a) == a[0]);
    } else {
        let s = a + b;
        assert(s[0] == a[0]);
        assert(s.skip(1) =~= a.skip(1) + b);
        lemma_join_concat(a.skip(1), b);
        assert(spec_join(s) == a[0] + seq![' '] + (spec_join(a.skip(1)) + seq![' '] + spec_join(
            b,
        )));
        assert(spec_join(a) == a[0] + seq![' '] + spec_join(a.skip(1)));
        assert(spec_join(s) =~= spec_join(a) + seq![' '] + spec_join(b));
    }
}

/// Appending one token to a non-empty list appends a space and its text to
/// the join.
pub proof fn lemma_join_push(ts: Seq<Seq<char>>, t: Seq<char>)
    ensures
        ts.len() == 0 ==> spec_join(ts.push(t)) == t,
        ts.len() > 0 ==> spec_join(ts.push(t)) == spec_join(ts) + seq![' '] + t,
{
    if ts.len() == 0 {
        assert(ts.push(t).len() == 1);
        assert(spec_join(ts.push(t)) == ts.push(t)[0]);
    } else {
        assert(ts.push(t) =~= ts + seq![t]);
        lemma_join_concat(ts, seq![t]);
        assert(spec_join(seq![t]) == t);
    }
}

/// Concatenating two lists of valid tokens gives a list of valid tokens.
pub proof fn lemma_valid_concat(a: Seq<Seq<char>>, b: Seq<Seq<char>>)
    requires
        forall|j: int| 0 <= j < a.len() ==> is_tok(#[trigger] a[j]),
        forall|j: int| 0 <= j < b.len() ==> is_tok(#[trigger] b[j]),
    ensures
        forall|j: int| 0 <= j < (a + b).len() ==> is_tok(#[trigger] (a + b)[j]),
{
    assert forall|j: int| 0 <= j < (a + b).len() implies is_tok((a + b)[j]) by {
        if j < a.len() {
            assert((a + b)[j] == a[j]);
        } else {
            assert((a + b)[j] == b[j - a.len()]);
        }
    }
}

/// An error from validating a token.
#[derive(Debug, PartialEq, Eq)]
pub enum TokenError {
    /// The text is empty.
    Empty,
    /// The text contains a whitespace character.
    Whitespace,
}

/// One token of a protocol line: non-empty text without whitespace.
#[derive(Debug)]
pub struct Token {
    text: String,
}

impl View for Token {
    type V = Seq<char>;

    closed spec fn view(&self) -> Seq<char> {
        self.text@
    }
}

impl Clone for Token {
    fn clone(&self) -> (r: Self)
        ensures
            r@ == self@,
    {
        proof {
            use_type_invariant(self);
        }
        Token { text: self.text.clone() }
    }
}

impl Token {
    #[verifier::type_invariant]
    pub open spec fn type_wf(&self) -> bool {
        is_tok(self@)
    }

    /// Validates `s` as a token: it must be non-empty and contain no
    /// whitespace.
    pub fn new(s: &str) -> (r: Result<Token, TokenError>)
        ensures
            match r {
                Ok(t) => is_tok(s@) && t@ == s@,
                Err(TokenError::Empty) => s@.len() == 0,
                Err(TokenError::Whitespace) => s@.len() > 0 && !is_tok(s@),
            },
    {
        let n = s.unicode_len();
        if n == 0 {
            return Err(TokenError::Empty);
        }
        let mut i: usize = 0;
        while i < n
            invariant
                n == s@.len(),
                i <= n,
                forall|x: int| 0 <= x < i ==> !is_space_c(#[trigger] s@[x]),
            decreases n - i,
        {
            if is_space(s.get_char(i)) {
                return Err(TokenError::Whitespace);
            }
            i += 1;
        }
        Ok(Token { text: s.to_owned() })
    }

    /// The token's text.
    pub fn as_str(&self) -> (r: &str)
        ensures
            r@ == self@,
    {
        self.text.as_str()
    }

    /// Compares the token's text with a plain string.
    pub fn is_kw(&self, kw: &str) -> (r: bool)
        ensures
            r == (self@ == kw@),
    {
        str_eq(self.text.as_str(), kw)
    }
}

/// An output buffer that receives tokens one by one; the sequence of tokens
/// received is `toks()`. Implementations place exactly one space between
/// adjacent tokens.
pub trait PushTokens {
    /// The tokens pushed so far, in order.
    spec fn toks(&self) -> Seq<Seq<char>>;

    /// Appends one token.
    fn push(&mut self, token: &Token)
        ensures
            final(self).toks() == old(self).toks().push(token@),
    ;

    /// Appends one token given as a plain string; it must be a valid token.
    fn push_kw(&mut self, kw: &str)
        requires
            is_tok(kw@),
        ensures
            final(self).toks() == old(self).toks().push(kw@),
    ;

    /// Appends the tokens of a string in canonical multi-token form; an
    /// empty body contributes nothing.
    fn push_body(&mut self, body: &str)
        requires
            is_body(body@),
        ensures
            final(self).toks() == old(self).toks() + spec_tokenize(body@),
    ;
}

/// Relies on `str`'s `PartialEq`: two string slices are equal exactly when
/// their character sequences are equal.
#[verifier::external_body]
pub fn str_eq(a: &str, b: &str) -> (r: bool)
    ensures
        r == (a@ == b@),
{
    a == b
}

/// Splits a line into its whitespace-separated tokens, in order. Every token
/// returned is non-empty and free of whitespace.
pub fn tokenize(s: &str) -> (r: Vec<Token>)
    ensures
        tok_views(r@) == spec_tokenize(s@),
        forall|j: int| 0 <= j < r@.len() ==> is_tok(#[trigger] r@[j]@),
{
    let n = s.unicode_len();
    let mut res: Vec<Token> = Vec::new();
    let mut i: usize = 0;
    proof {
        assert(s@.skip(0) =~= s@);
        assert(tok_views(res@) + spec_tokenize(s@) =~= spec_tokenize(s@));
    }
    while i < n
        invariant
            n == s@.len(),
            i <= n,
            spec_tokenize(s@) == tok_views(res@) + spec_tokenize(s@.skip(i as int)),
            forall|j: int| 0 <= j < res@.len() ==> is_tok(#[trigger] res@[j]@),
        decreases n - i,
    {
        let c = s.get_char(i);
        if is_space(c) {
            proof {
                assert(s@.skip(i as int).skip(1) =~= s@.skip(i as int + 1));
            }
            i += 1;
        } else {
            let start = i;
            let mut j = i + 1;
            while j < n && !is_space(s.get_char(j))
                invariant
                    n == s@.len(),
                    start < j <= n,
                    forall|x: int| start <= x < j ==> !is_space_c(#[trigger] s@[x]),
                decreases n - j,
            {
                j += 1;
            }
            let text = s.substring_char(start, j).to_owned();
            let tok = Token { text };
            proof {
                let u = s@.skip(start as int);
                let k = j - start;
                assert(forall|x: int| 0 <= x < k ==> !is_space_c(#[trigger] u[x]));
                lemma_tokenize_run(u, k as int);
                assert(u.take(k as int) =~= s@.subrange(start as int, j as int));
                assert(u.skip(k as int) =~= s@.skip(j as int));
                assert(tok_views(res@.push(tok)) =~= tok_views(res@).push(tok@));
                assert(tok_views(res@).push(tok@) + spec_tokenize(s@.skip(j as int)) =~= tok_views(
                    res@,
                ) + spec_tokenize(s@.skip(start as int)));
            }
            res.push(tok);
            i = j;
        }
    }
    proof {
        assert(s@.skip(n as int) =~= Seq::<char>::empty());
        assert(tok_views(res@) + spec_tokenize(Seq::<char>::empty()) =~= tok_views(res@));
        lemma_tokenize_tokens(s@);
        assert(forall|j: int| 0 <= j < res@.len() ==> tok_views(res@)[j] == res@[j]@);
    }
    res
}

} // verus!
