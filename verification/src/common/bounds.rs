//! Brackets: intervals across which a valuation function is taken to change
//! sign, and the two half-lines that a search stays in.

use crate::scalar::{zero, Scalar};
use vstd::prelude::*;

verus! {

pub struct Bounds<R> {
    pub lower: R,
    pub upper: R,
}

impl<R: Scalar> Bounds<R> {
    /// The lower end does not lie above the upper end.
    pub open spec fn ordered(self) -> bool {
        self.lower.spec_at_most(self.upper)
    }

    /// The half-line from zero to the largest finite scalar.
    pub open spec fn positive() -> Self {
        Bounds { lower: zero(), upper: R::spec_greatest() }
    }

    /// The half-line from the smallest finite scalar to zero.
    pub open spec fn negative() -> Self {
        Bounds { lower: R::spec_least(), upper: zero() }
    }

    pub fn new_positive() -> (b: Self)
        ensures
            b == Self::positive(),
    {
        Bounds { lower: R::from_int(0), upper: R::greatest() }
    }

    pub fn new_negative() -> (b: Self)
        ensures
            b == Self::negative(),
    {
        Bounds { lower: R::least(), upper: R::from_int(0) }
    }

    /// The bracket from `lower` to `upper`, which must be in order.
    pub fn new_from_range(lower: R, upper: R) -> (b: Self)
        requires
            lower.spec_at_most(upper),
        ensures
            b == (Bounds { lower, upper }),
            b.ordered(),
    {
        Bounds { lower, upper }
    }
}

} // verus!
