//! Cursor helpers shared by the parsers: taking the next token, looking
//! ahead, and splitting a token list on the first occurrence of a keyword.

use vstd::prelude::*;

use crate::token::{tok_views, Token};
use crate::warn::Sink;

verus! {

/// The position of the first token equal to `w` at or after `i`, or the
/// length of `ts` when there is none.
pub open spec fn spec_find(ts: Seq<Seq<char>>, w: Seq<char>, i: int) -> int
    decreases ts.len() - i when 0 <= i <= ts.len()
{
    if i >= ts.len() {
        ts.len() as int
    } else if ts[i] == w {
        i
    } else {
        spec_find(ts, w, i + 1)
    }
}

/// Bounds and meaning of `spec_find`: the result lies between `i` and the
/// length, points at `w` when in range, and nothing before it matches.
pub proof fn lemma_find(ts: Seq<Seq<char>>, w: Seq<char>, i: int)
    requires
        0 <= i <= ts.len(),
    ensures
        i <= spec_find(ts, w, i) <= ts.len(),
        spec_find(ts, w, i) < ts.len() ==> ts[spec_find(ts, w, i)] == w,
        forall|x: int| i <= x < spec_find(ts, w, i) ==> ts[x] != w,
    decreases ts.len() - i,
{
    if i < ts.len() && ts[i] != w {
        lemma_find(ts, w, i + 1);
    }
}

/// When nothing in `[i, k)` matches and `k` is the end or a match,
/// `spec_find` lands exactly on `k`.
pub proof fn lemma_find_exact(ts: Seq<Seq<char>>, w: Seq<char>, i: int, k: int)
    requires
        0 <= i <= k <= ts.len(),
        forall|x: int| i <= x < k ==> ts[x] != w,
        k == ts.len() || ts[k] == w,
    ensures
        spec_find(ts, w, i) == k,
    decreases k - i,
{
    if i < k {
        lemma_find_exact(ts, w, i + 1, k);
    }
}

/// Takes the next token, advancing the cursor; `None` at end of line.
pub fn next<'a>(toks: &'a Vec<Token>, i: &mut usize) -> (r: Option<&'a Token>)
    requires
        *old(i) <= toks@.len(),
    ensures
        *old(i) < toks@.len() ==> (r matches Some(t) && t@ == tok_views(toks@)[*old(i) as int]
            && *final(i) == *old(i) + 1),
        *old(i) >= toks@.len() ==> (r is None && *final(i) == *old(i)),
{
    if *i < toks.len() {
        let t = &toks[*i];
        *i += 1;
        Some(t)
    } else {
        None
    }
}

/// Finds the first token equal to `kw` at or after `from`; the token count
/// when there is none.
pub fn find_kw(toks: &Vec<Token>, from: usize, kw: &str) -> (r: usize)
    requires
        from <= toks@.len(),
    ensures
        r as int == spec_find(tok_views(toks@), kw@, from as int),
        from <= r <= toks@.len(),
        r < toks@.len() ==> tok_views(toks@)[r as int] == kw@,
        forall|x: int| from <= x < r ==> tok_views(toks@)[x] != kw@,
{
    let ghost ts = tok_views(toks@);
    let mut j = from;
    while j < toks.len()
        invariant
            from <= j <= toks@.len(),
            ts == tok_views(toks@),
            spec_find(ts, kw@, from as int) == spec_find(ts, kw@, j as int),
        decreases toks@.len() - j,
    {
        if toks[j].is_kw(kw) {
            proof {
                assert(ts[j as int] == toks@[j as int]@);
                lemma_find(ts, kw@, from as int);
            }
            return j;
        }
        proof {
            assert(ts[j as int] == toks@[j as int]@);
        }
        j += 1;
    }
    proof {
        lemma_find(ts, kw@, from as int);
    }
    j
}

/// Copies the tokens of the half-open range `[a, b)` into a fresh list.
pub fn clone_range(toks: &Vec<Token>, a: usize, b: usize) -> (r: Vec<Token>)
    requires
        a <= b <= toks@.len(),
    ensures
        tok_views(r@) == tok_views(toks@).subrange(a as int, b as int),
{
    let mut r: Vec<Token> = Vec::new();
    let mut j = a;
    proof {
        assert(tok_views(r@) =~= tok_views(toks@).subrange(a as int, a as int));
    }
    while j < b
        invariant
            a <= j <= b <= toks@.len(),
            tok_views(r@) == tok_views(toks@).subrange(a as int, j as int),
        decreases b - j,
    {
        let t = toks[j].clone();
        proof {
            assert(t@ == toks@[j as int]@);
            assert(tok_views(toks@)[j as int] == toks@[j as int]@);
            assert(forall|k: int|
                0 <= k < r@.len() ==> #[trigger] tok_views(r@.push(t))[k] == tok_views(r@)[k]);
            assert(tok_views(r@).len() == r@.len());
            assert(r@.len() == j - a);
            assert(tok_views(r@.push(t))[r@.len() as int] == t@);
            assert(tok_views(r@.push(t)).len() == j + 1 - a);
            assert(tok_views(r@.push(t)) =~~= tok_views(toks@).subrange(a as int, j as int + 1));
        }
        r.push(t);
        j += 1;
    }
    r
}

/// Splits on the first occurrence of `kw` at or after `from`: the tokens
/// before it, and those after it when it occurs.
pub fn try_split(toks: &Vec<Token>, from: usize, kw: &str) -> (r: (Vec<Token>, Option<Vec<Token>>))
    requires
        from <= toks@.len(),
    ensures
        ({
            let ts = tok_views(toks@);
            let p = spec_find(ts, kw@, from as int);
            &&& from <= p <= ts.len()
            &&& tok_views(r.0@) == ts.subrange(from as int, p)
            &&& (p < ts.len() ==> (r.1 matches Some(v) && tok_views(v@) == ts.subrange(
                p + 1,
                ts.len() as int,
            )))
            &&& (p == ts.len() ==> r.1 is None)
        }),
{
    proof {
        lemma_find(tok_views(toks@), kw@, from as int);
    }
    let p = find_kw(toks, from, kw);
    let left = clone_range(toks, from, p);
    if p < toks.len() {
        let right = clone_range(toks, p + 1, toks.len());
        (left, Some(right))
    } else {
        (left, None)
    }
}

/// Splits on the first occurrence of `kw` at or after `from`; when `kw` is
/// absent, warns with `error` and yields an empty right half.
pub fn split<E, S: Sink<E>>(toks: &Vec<Token>, from: usize, kw: &str, error: E, warn: &mut S) -> (r:
    (Vec<Token>, Vec<Token>))
    requires
        from <= toks@.len(),
    ensures
        ({
            let ts = tok_views(toks@);
            let p = spec_find(ts, kw@, from as int);
            &&& from <= p <= ts.len()
            &&& tok_views(r.0@) == ts.subrange(from as int, p)
            &&& (p < ts.len() ==> tok_views(r.1@) == ts.subrange(p + 1, ts.len() as int)
                && final(warn).sunk() == old(warn).sunk())
            &&& (p == ts.len() ==> tok_views(r.1@) == Seq::<Seq<char>>::empty()
                && final(warn).sunk() == old(warn).sunk().push(error))
        }),
{
    let (left, right) = try_split(toks, from, kw);
    match right {
        Some(v) => (left, v),
        None => {
            warn.warn(error);
            let empty: Vec<Token> = Vec::new();
            proof {
                assert(tok_views(empty@) =~= Seq::<Seq<char>>::empty());
            }
            (left, empty)
        },
    }
}

} // verus!
