//! The score algebra: evaluations relative to the side to move, evaluations
//! from White's point of view, the bound qualifier, and the conversions and
//! total order connecting them.

use core::cmp::Ordering;

use vstd::prelude::*;

verus! {

/// The side a score is seen from.
#[derive(Copy, Clone, PartialEq, Eq, Structural, Debug, Hash)]
pub enum Color {
    White,
    Black,
}

impl Color {
    /// The opposite side.
    pub open spec fn spec_inv(self) -> Color {
        match self {
            Color::White => Color::Black,
            Color::Black => Color::White,
        }
    }

    /// The opposite side.
    pub fn inv(self) -> (r: Self)
        ensures
            r == self.spec_inv(),
    {
        match self {
            Color::White => Color::Black,
            Color::Black => Color::White,
        }
    }
}

/// How a reported score bounds the true evaluation.
#[derive(Copy, Clone, PartialEq, Eq, Structural, PartialOrd, Ord, Debug, Hash)]
pub enum Bound {
    Lower,
    Upper,
    Exact,
}

impl Default for Bound {
    /// The default bound is `Exact`.
    fn default() -> (r: Self)
        ensures
            r == Bound::Exact,
    {
        Bound::Exact
    }
}

impl Bound {
    /// Inversion swaps `Lower` and `Upper` and fixes `Exact`.
    pub open spec fn spec_inv(self) -> Bound {
        match self {
            Bound::Lower => Bound::Upper,
            Bound::Upper => Bound::Lower,
            Bound::Exact => Bound::Exact,
        }
    }

    /// Swaps `Lower` and `Upper`; `Exact` stays.
    pub fn inv(self) -> (r: Self)
        ensures
            r == self.spec_inv(),
    {
        match self {
            Bound::Lower => Bound::Upper,
            Bound::Upper => Bound::Lower,
            Bound::Exact => Bound::Exact,
        }
    }

    /// The bound as seen from `side`: unchanged for White, inverted for
    /// Black.
    pub open spec fn spec_rel_side(self, side: Color) -> Bound {
        match side {
            Color::White => self,
            Color::Black => self.spec_inv(),
        }
    }

    fn rel_side(self, side: Color) -> (r: Self)
        ensures
            r == self.spec_rel_side(side),
    {
        match side {
            Color::White => self,
            Color::Black => self.inv(),
        }
    }
}

/// A score relative to the side to move: centipawns, or mate in a number of
/// moves, won or lost.
#[derive(Copy, Clone, PartialEq, Eq, Structural, Debug, Hash)]
pub enum RelScore {
    Cp(i32),
    Mate { moves: u32, win: bool },
}

impl Default for RelScore {
    /// The default score is zero centipawns.
    fn default() -> (r: Self)
        ensures
            r == RelScore::Cp(0),
    {
        RelScore::Cp(0)
    }
}

/// A score from White's point of view: centipawns, or mate in a number of
/// moves by the given winner.
#[derive(Copy, Clone, PartialEq, Eq, Structural, Debug, Hash)]
pub enum AbsScore {
    Cp(i32),
    Mate { moves: u32, winner: Color },
}

impl Default for AbsScore {
    /// The default score is zero centipawns.
    fn default() -> (r: Self)
        ensures
            r == AbsScore::Cp(0),
    {
        AbsScore::Cp(0)
    }
}

impl RelScore {
    /// Whether inversion stays within machine bounds: every centipawn value
    /// except `i32::MIN` negates without overflow.
    pub open spec fn invertible(self) -> bool {
        match self {
            RelScore::Cp(v) => v != i32::MIN,
            RelScore::Mate { .. } => true,
        }
    }

    /// The same score seen by the opponent: centipawns negate, a win becomes
    /// a loss.
    pub open spec fn spec_inv(self) -> RelScore {
        match self {
            RelScore::Cp(v) => RelScore::Cp((-v) as i32),
            RelScore::Mate { moves, win } => RelScore::Mate { moves, win: !win },
        }
    }

    /// Negates centipawns and flips the winning flag.
    pub fn inv(self) -> (r: Self)
        requires
            self.invertible(),
        ensures
            r == self.spec_inv(),
    {
        match self {
            RelScore::Cp(v) => RelScore::Cp(-v),
            RelScore::Mate { moves, win } => RelScore::Mate { moves, win: !win },
        }
    }

    /// The score from White's point of view, when `side` is to move.
    pub open spec fn spec_abs_to(self, side: Color) -> AbsScore {
        match self {
            RelScore::Cp(v) => match side {
                Color::White => AbsScore::Cp(v),
                Color::Black => AbsScore::Cp((-v) as i32),
            },
            RelScore::Mate { moves, win } => AbsScore::Mate {
                moves,
                winner: if win {
                    side
                } else {
                    side.spec_inv()
                },
            },
        }
    }

    /// Converts to a score from White's point of view, when `side` is to
    /// move.
    pub fn abs_to(self, side: Color) -> (r: AbsScore)
        requires
            self.invertible(),
        ensures
            r == self.spec_abs_to(side),
    {
        match self {
            RelScore::Cp(v) => match side {
                Color::White => AbsScore::Cp(v),
                Color::Black => AbsScore::Cp(-v),
            },
            RelScore::Mate { moves, win } => AbsScore::Mate {
                moves,
                winner: if win {
                    side
                } else {
                    side.inv()
                },
            },
        }
    }

    /// The comparison key: losing mates sort below all centipawn scores,
    /// which sort below winning mates; a closer losing mate is worse, a
    /// closer winning mate is better.
    pub open spec fn spec_cmp_tuple(self) -> (int, int) {
        match self {
            RelScore::Cp(v) => (0, v as int),
            RelScore::Mate { moves, win } => if win {
                (1, -(moves as int))
            } else {
                (-1, moves as int)
            },
        }
    }

    /// The total order on scores: lexicographic on the comparison key.
    pub open spec fn spec_cmp(self, other: RelScore) -> Ordering {
        let (c1, k1) = self.spec_cmp_tuple();
        let (c2, k2) = other.spec_cmp_tuple();
        if c1 < c2 {
            Ordering::Less
        } else if c1 > c2 {
            Ordering::Greater
        } else if k1 < k2 {
            Ordering::Less
        } else if k1 > k2 {
            Ordering::Greater
        } else {
            Ordering::Equal
        }
    }

    fn cmp_tuple(&self) -> (r: (i32, i64))
        ensures
            r.0 as int == self.spec_cmp_tuple().0,
            r.1 as int == self.spec_cmp_tuple().1,
    {
        match *self {
            RelScore::Cp(v) => (0, v as i64),
            RelScore::Mate { moves, win } => if win {
                (1, -(moves as i64))
            } else {
                (-1, moves as i64)
            },
        }
    }

    /// Compares two scores in the total order given by the comparison key.
    pub fn cmp(&self, other: &Self) -> (r: Ordering)
        ensures
            r == self.spec_cmp(*other),
    {
        let (c1, k1) = self.cmp_tuple();
        let (c2, k2) = other.cmp_tuple();
        if c1 < c2 {
            Ordering::Less
        } else if c1 > c2 {
            Ordering::Greater
        } else if k1 < k2 {
            Ordering::Less
        } else if k1 > k2 {
            Ordering::Greater
        } else {
            Ordering::Equal
        }
    }
}

impl AbsScore {
    /// Whether conversion back to a relative score stays within machine
    /// bounds.
    pub open spec fn invertible(self) -> bool {
        match self {
            AbsScore::Cp(v) => v != i32::MIN,
            AbsScore::Mate { .. } => true,
        }
    }

    /// The score relative to `side`, when `side` is to move.
    pub open spec fn spec_rel_to(self, side: Color) -> RelScore {
        match self {
            AbsScore::Cp(v) => match side {
                Color::White => RelScore::Cp(v),
                Color::Black => RelScore::Cp((-v) as i32),
            },
            AbsScore::Mate { moves, winner } => RelScore::Mate { moves, win: winner == side },
        }
    }

    /// Converts to the score relative to `side`, when `side` is to move.
    pub fn rel_to(self, side: Color) -> (r: RelScore)
        requires
            self.invertible(),
        ensures
            r == self.spec_rel_to(side),
    {
        match self {
            AbsScore::Cp(v) => match side {
                Color::White => RelScore::Cp(v),
                Color::Black => RelScore::Cp(-v),
            },
            AbsScore::Mate { moves, winner } => RelScore::Mate {
                moves,
                win: matches!((winner, side), (Color::White, Color::White) | (Color::Black, Color::Black)),
            },
        }
    }

    fn cmp_tuple(&self) -> (r: (i32, i64))
        ensures
            r.0 as int == self.spec_rel_to(Color::White).spec_cmp_tuple().0,
            r.1 as int == self.spec_rel_to(Color::White).spec_cmp_tuple().1,
    {
        match *self {
            AbsScore::Cp(v) => (0, v as i64),
            AbsScore::Mate { moves, winner } => match winner {
                Color::White => (1, -(moves as i64)),
                Color::Black => (-1, moves as i64),
            },
        }
    }

    /// Compares two scores as their relative views from White's side; seen
    /// from White, no centipawn value negates, so the order is total.
    pub fn cmp(&self, other: &Self) -> (r: Ordering)
        ensures
            r == self.spec_rel_to(Color::White).spec_cmp(other.spec_rel_to(Color::White)),
    {
        let (c1, k1) = self.cmp_tuple();
        let (c2, k2) = other.cmp_tuple();
        if c1 < c2 {
            Ordering::Less
        } else if c1 > c2 {
            Ordering::Greater
        } else if k1 < k2 {
            Ordering::Less
        } else if k1 > k2 {
            Ordering::Greater
        } else {
            Ordering::Equal
        }
    }
}

/// A relative score together with its bound qualifier.
#[derive(Copy, Clone, PartialEq, Eq, Structural, Debug, Hash)]
pub struct BoundedRelScore {
    pub score: RelScore,
    pub bound: Bound,
}

impl Default for BoundedRelScore {
    /// The default is an exact zero-centipawn score.
    fn default() -> (r: Self)
        ensures
            r == (BoundedRelScore { score: RelScore::Cp(0), bound: Bound::Exact }),
    {
        BoundedRelScore { score: RelScore::Cp(0), bound: Bound::Exact }
    }
}

/// An absolute score together with its bound qualifier.
#[derive(Copy, Clone, PartialEq, Eq, Structural, Debug, Hash)]
pub struct BoundedAbsScore {
    pub score: AbsScore,
    pub bound: Bound,
}

impl Default for BoundedAbsScore {
    /// The default is an exact zero-centipawn score.
    fn default() -> (r: Self)
        ensures
            r == (BoundedAbsScore { score: AbsScore::Cp(0), bound: Bound::Exact }),
    {
        BoundedAbsScore { score: AbsScore::Cp(0), bound: Bound::Exact }
    }
}

impl BoundedRelScore {
    /// Inverts the score and the bound together.
    pub fn inv(self) -> (r: Self)
        requires
            self.score.invertible(),
        ensures
            r == (BoundedRelScore { score: self.score.spec_inv(), bound: self.bound.spec_inv() }),
    {
        BoundedRelScore { score: self.score.inv(), bound: self.bound.inv() }
    }

    /// Converts score and bound to White's point of view, when `side` is to
    /// move.
    pub fn abs_to(self, side: Color) -> (r: BoundedAbsScore)
        requires
            self.score.invertible(),
        ensures
            r == (BoundedAbsScore {
                score: self.score.spec_abs_to(side),
                bound: self.bound.spec_rel_side(side),
            }),
    {
        BoundedAbsScore { score: self.score.abs_to(side), bound: self.bound.rel_side(side) }
    }
}

impl BoundedAbsScore {
    /// Converts score and bound to `side`'s point of view, when `side` is to
    /// move.
    pub fn rel_to(self, side: Color) -> (r: BoundedRelScore)
        requires
            self.score.invertible(),
        ensures
            r == (BoundedRelScore {
                score: self.score.spec_rel_to(side),
                bound: self.bound.spec_rel_side(side),
            }),
    {
        BoundedRelScore { score: self.score.rel_to(side), bound: self.bound.rel_side(side) }
    }
}

/// The score conversions round-trip: taking a relative score to White's point
/// of view and back for the same side is the identity, and doing so for the
/// opposite side inverts the score.
pub proof fn lemma_score_round_trip(r: RelScore, s: Color)
    requires
        r.invertible(),
    ensures
        r.spec_abs_to(s).spec_rel_to(s) == r,
        r.spec_abs_to(s).spec_rel_to(s.spec_inv()) == r.spec_inv(),
{
}

/// The bound conversions round-trip the same way: relative twice for the same
/// side is the identity, for opposite sides it inverts.
pub proof fn lemma_bound_round_trip(b: Bound, s: Color)
    ensures
        b.spec_rel_side(s).spec_rel_side(s) == b,
        b.spec_rel_side(s).spec_rel_side(s.spec_inv()) == b.spec_inv(),
{
}

/// The order on scores is total: reflexive-equal, antisymmetric, and
/// transitive with respect to the comparison key.
pub proof fn lemma_score_order_total(a: RelScore, b: RelScore, c: RelScore)
    ensures
        a.spec_cmp(a) == Ordering::Equal,
        a.spec_cmp(b) == Ordering::Equal ==> a == b,
        a.spec_cmp(b) == Ordering::Less <==> b.spec_cmp(a) == Ordering::Greater,
        a.spec_cmp(b) == Ordering::Less && b.spec_cmp(c) == Ordering::Less ==> a.spec_cmp(c)
            == Ordering::Less,
{
}

} // verus!
