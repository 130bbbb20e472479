//! The warning sink: the single channel through which parsers report
//! anomalies. A sink accepts error values; canned sinks discard them, keep
//! the first or the last one, collect them all, or hand each to a callback.
//! Every sink models the full sequence of warnings it has received.

use vstd::prelude::*;

verus! {

/// A receiver of warnings. `sunk()` is the sequence of every warning the
/// sink has accepted, in order; `warn` appends to it.
pub trait Sink<E> {
    /// All warnings received so far, in order.
    spec fn sunk(&self) -> Seq<E>;

    /// Accepts one warning.
    fn warn(&mut self, error: E)
        ensures
            final(self).sunk() == old(self).sunk().push(error),
    ;
}

/// A sink that discards every warning.
pub struct Ignore<E> {
    hist: Ghost<Seq<E>>,
}

impl<E> Ignore<E> {
    /// A fresh sink with no warnings received.
    pub fn new() -> (r: Self)
        ensures
            r.sunk() == Seq::<E>::empty(),
    {
        Ignore { hist: Ghost(Seq::empty()) }
    }
}

impl<E> Default for Ignore<E> {
    /// A fresh sink with no warnings received.
    fn default() -> (r: Self)
        ensures
            r.sunk() == Seq::<E>::empty(),
    {
        Self::new()
    }
}

impl<E> Sink<E> for Ignore<E> {
    closed spec fn sunk(&self) -> Seq<E> {
        self.hist@
    }

    fn warn(&mut self, error: E) {
        let ghost h = self.hist@.push(error);
        self.hist = Ghost(h);
    }
}

/// A sink that records every warning, in order.
pub struct All<E> {
    /// The warnings received so far.
    pub log: Vec<E>,
}

impl<E> All<E> {
    /// A fresh sink with no warnings received.
    pub fn new() -> (r: Self)
        ensures
            r.sunk() == Seq::<E>::empty(),
            r.log@ == Seq::<E>::empty(),
    {
        All { log: Vec::new() }
    }
}

impl<E> Default for All<E> {
    /// A fresh sink with no warnings received.
    fn default() -> (r: Self)
        ensures
            r.sunk() == Seq::<E>::empty(),
            r.log@ == Seq::<E>::empty(),
    {
        Self::new()
    }
}

impl<E> Sink<E> for All<E> {
    open spec fn sunk(&self) -> Seq<E> {
        self.log@
    }

    fn warn(&mut self, error: E) {
        self.log.push(error);
    }
}

/// A sink that keeps only the first warning it receives.
pub struct First<E> {
    got: Option<E>,
    hist: Ghost<Seq<E>>,
}

impl<E> First<E> {
    #[verifier::type_invariant]
    spec fn type_wf(&self) -> bool {
        if self.hist@.len() == 0 {
            self.got is None
        } else {
            self.got == Some(self.hist@[0])
        }
    }

    /// A fresh sink with no warnings received.
    pub fn new() -> (r: Self)
        ensures
            r.sunk() == Seq::<E>::empty(),
    {
        First { got: None, hist: Ghost(Seq::empty()) }
    }

    /// The first warning received, if any.
    pub fn get(&self) -> (r: &Option<E>)
        ensures
            *r == (if self.sunk().len() == 0 {
                None::<E>
            } else {
                Some(self.sunk()[0])
            }),
    {
        proof {
            use_type_invariant(self);
        }
        &self.got
    }
}

impl<E> Default for First<E> {
    /// A fresh sink with no warnings received.
    fn default() -> (r: Self)
        ensures
            r.sunk() == Seq::<E>::empty(),
    {
        Self::new()
    }
}

impl<E> Sink<E> for First<E> {
    closed spec fn sunk(&self) -> Seq<E> {
        self.hist@
    }

    fn warn(&mut self, error: E) {
        proof {
            use_type_invariant(&*self);
        }
        let ghost h = self.hist@.push(error);
        if self.got.is_none() {
            *self = First { got: Some(error), hist: Ghost(h) };
        } else {
            self.hist = Ghost(h);
        }
    }
}

/// A sink that keeps only the most recent warning it receives.
pub struct Last<E> {
    got: Option<E>,
    hist: Ghost<Seq<E>>,
}

impl<E> Last<E> {
    #[verifier::type_invariant]
    spec fn type_wf(&self) -> bool {
        if self.hist@.len() == 0 {
            self.got is None
        } else {
            self.got == Some(self.hist@.last())
        }
    }

    /// A fresh sink with no warnings received.
    pub fn new() -> (r: Self)
        ensures
            r.sunk() == Seq::<E>::empty(),
    {
        Last { got: None, hist: Ghost(Seq::empty()) }
    }

    /// The most recent warning received, if any.
    pub fn get(&self) -> (r: &Option<E>)
        ensures
            *r == (if self.sunk().len() == 0 {
                None::<E>
            } else {
                Some(self.sunk().last())
            }),
    {
        proof {
            use_type_invariant(self);
        }
        &self.got
    }
}

impl<E> Default for Last<E> {
    /// A fresh sink with no warnings received.
    fn default() -> (r: Self)
        ensures
            r.sunk() == Seq::<E>::empty(),
    {
        Self::new()
    }
}

impl<E> Sink<E> for Last<E> {
    closed spec fn sunk(&self) -> Seq<E> {
        self.hist@
    }

    fn warn(&mut self, error: E) {
        proof {
            use_type_invariant(&*self);
        }
        let ghost h = self.hist@.push(error);
        *self = Last { got: Some(error), hist: Ghost(h) };
    }
}

/// A sink that hands each warning to a caller-supplied function.
pub struct FromFn<E, F> where F: Fn(E) {
    f: F,
    hist: Ghost<Seq<E>>,
}

impl<E, F> FromFn<E, F> where F: Fn(E) {
    #[verifier::type_invariant]
    spec fn type_wf(&self) -> bool {
        forall|e: E| self.f.requires((e,))
    }

    /// Wraps a callback as a sink. The callback must accept every error
    /// value.
    pub fn new(f: F) -> (r: Self)
        requires
            forall|e: E| f.requires((e,)),
        ensures
            r.sunk() == Seq::<E>::empty(),
    {
        FromFn { f, hist: Ghost(Seq::empty()) }
    }
}

impl<E, F> Sink<E> for FromFn<E, F> where F: Fn(E) {
    closed spec fn sunk(&self) -> Seq<E> {
        self.hist@
    }

    fn warn(&mut self, error: E) {
        proof {
            use_type_invariant(&*self);
        }
        let ghost h = self.hist@.push(error);
        (self.f)(error);
        self.hist = Ghost(h);
    }
}

/// Reports `error` when the value is absent; the value itself is unchanged.
pub fn or_warn_with<T, E, S: Sink<E>>(v: Option<T>, error: E, warn: &mut S) -> (r: Option<T>)
    ensures
        r == v,
        final(warn).sunk() == (if v is None {
            old(warn).sunk().push(error)
        } else {
            old(warn).sunk()
        }),
{
    if v.is_none() {
        warn.warn(error);
    }
    v
}

/// Reports `error` when the result is an error; the result itself is
/// unchanged.
pub fn or_warn<T, D, E, S: Sink<E>>(v: Result<T, D>, error: E, warn: &mut S) -> (r: Result<T, D>)
    ensures
        r == v,
        final(warn).sunk() == (if v is Err {
            old(warn).sunk().push(error)
        } else {
            old(warn).sunk()
        }),
{
    if v.is_err() {
        warn.warn(error);
    }
    v
}

/// Wraps a callback as a sink that invokes it on each warning.
pub fn from_fn<E, F: Fn(E)>(f: F) -> (r: FromFn<E, F>)
    requires
        forall|e: E| f.requires((e,)),
    ensures
        r.sunk() == Seq::<E>::empty(),
{
    FromFn::new(f)
}

/// Appending one element to the right operand of a concatenation appends it
/// to the whole.
pub broadcast proof fn lemma_concat_push<T>(s: Seq<T>, q: Seq<T>, x: T)
    ensures
        #[trigger] (s + q.push(x)) == (s + q).push(x),
{
    assert(s + q.push(x) =~= (s + q).push(x));
}

/// Concatenating the empty sequence on the right changes nothing.
pub broadcast proof fn lemma_concat_empty_r<T>(s: Seq<T>)
    ensures
        #[trigger] (s + Seq::<T>::empty()) == s,
{
    assert(s + Seq::<T>::empty() =~= s);
}

/// Concatenating the empty sequence on the left changes nothing.
pub broadcast proof fn lemma_concat_empty_l<T>(s: Seq<T>)
    ensures
        #[trigger] (Seq::<T>::empty() + s) == s,
{
    assert(Seq::<T>::empty() + s =~= s);
}

/// Concatenation is associative.
pub broadcast proof fn lemma_concat_assoc<T>(s: Seq<T>, a: Seq<T>, b: Seq<T>)
    ensures
        #[trigger] (s + (a + b)) == (s + a) + b,
{
    assert(s + (a + b) =~= (s + a) + b);
}

} // verus!
