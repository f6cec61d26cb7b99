//! The constants of the engine, gathered so that a caller can tighten or
//! loosen them.

use crate::scalar::{ratio, ratio_of, Scalar};
use vstd::prelude::*;

verus! {

/// Iteration numbers of the Newton solver run from one and stop short of this.
pub const NEWTON_MAX_ITERATION: u32 = 20;

/// Iteration numbers of the bracket search run from one and stop short of this.
pub const BOUNDS_MAX_ITERATION: u32 = 60;

/// Iteration numbers of the bisection run from one and stop short of this.
pub const BISECTION_MAX_ITERATION: u32 = 2000;

pub struct Settings<R> {
    /// The precision threshold: step size and residual of the Newton solver,
    /// residual of the bisection, step of the derivative estimate, and the
    /// distance kept from the ends of a half-line.
    pub tolerance: R,
    /// Half the width of the interval that a bracket search starts from.
    pub shift: R,
    /// How far, in widths of the interval, a bracket search pushes each
    /// endpoint out per round.
    pub factor: R,
    pub newton_cap: u32,
    pub bounds_cap: u32,
    pub bisection_cap: u32,
}

/// How many rounds a loop makes whose iteration numbers run from one and stop
/// short of `cap`.
pub open spec fn rounds(cap: u32) -> nat {
    if cap >= 1 {
        (cap - 1) as nat
    } else {
        0
    }
}

/// How many rounds are left when iteration number `i` is about to start.
pub open spec fn remaining(cap: u32, i: u32) -> nat {
    if cap > i {
        (cap - i) as nat
    } else {
        0
    }
}

impl<R: Scalar> Settings<R> {
    /// Tolerance `1e-7`, shift `0.01`, the given expansion factor, and the
    /// standard caps.
    pub open spec fn with_factor(factor: R) -> Self {
        Settings {
            tolerance: ratio::<R>(1, 10_000_000),
            shift: ratio::<R>(1, 100),
            factor,
            newton_cap: NEWTON_MAX_ITERATION,
            bounds_cap: BOUNDS_MAX_ITERATION,
            bisection_cap: BISECTION_MAX_ITERATION,
        }
    }

    /// The standard settings: expansion factor `1.6`.
    pub open spec fn standard() -> Self {
        Self::with_factor(ratio::<R>(16, 10))
    }

    pub fn new_with_factor(factor: R) -> (s: Self)
        ensures
            s == Self::with_factor(factor),
    {
        Settings {
            tolerance: ratio_of::<R>(1, 10_000_000),
            shift: ratio_of::<R>(1, 100),
            factor,
            newton_cap: NEWTON_MAX_ITERATION,
            bounds_cap: BOUNDS_MAX_ITERATION,
            bisection_cap: BISECTION_MAX_ITERATION,
        }
    }

    pub fn new() -> (s: Self)
        ensures
            s == Self::standard(),
    {
        Self::new_with_factor(ratio_of::<R>(16, 10))
    }
}

} // verus!
