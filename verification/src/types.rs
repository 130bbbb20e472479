//! Small scalar protocol values: a permille quantity and a three-way status.

use vstd::prelude::*;

verus! {

/// A quantity in parts per thousand, between 0 and 1000 inclusive.
#[derive(Copy, Clone, PartialEq, Eq, Structural, PartialOrd, Ord, Debug, Hash)]
pub struct Permille(u16);

/// An error from converting an out-of-range quantity to a `Permille`.
#[derive(Debug, Clone, PartialEq, Eq)]
pub enum PermilleError {
    /// The value is below zero.
    TooSmall,
    /// The value is above one.
    TooLarge,
}

impl Permille {
    #[verifier::type_invariant]
    spec fn type_wf(self) -> bool {
        self.0 <= 1000
    }

    /// The stored amount, always at most 1000.
    pub closed spec fn spec_amount(self) -> u16 {
        self.0
    }

    /// Makes a permille quantity from an amount already known to be in
    /// range.
    pub fn new(amount: u16) -> (r: Self)
        requires
            amount <= 1000,
        ensures
            r.spec_amount() == amount,
    {
        Permille(amount)
    }

    /// Makes a permille quantity, saturating at 1000: the stored amount is
    /// the smaller of `amount` and 1000.
    pub fn new_truncated(amount: u64) -> (r: Self)
        ensures
            r.spec_amount() == if amount <= 1000 {
                amount as u16
            } else {
                1000u16
            },
    {
        if amount <= 1000 {
            Permille(amount as u16)
        } else {
            Permille(1000)
        }
    }

    /// The amount in parts per thousand.
    pub fn amount(&self) -> (r: u16)
        ensures
            r == self.spec_amount(),
            r <= 1000,
    {
        proof {
            use_type_invariant(self);
        }
        self.0
    }
}

/// A three-way status used by copy-protection and registration reports.
#[derive(Copy, Clone, PartialEq, Eq, Structural, Debug, Hash)]
pub enum TriStatus {
    Okay,
    Checking,
    Error,
}

} // verus!
