//! The local solver: Newton-Raphson on a central-difference slope.

use crate::common::settings::{remaining, rounds, Settings};
use crate::common::valuation::{callable, computes};
use crate::scalar::{within, Scalar};
use vstd::prelude::*;

verus! {

/// The central difference `(v(x + h) - v(x - h)) / (2 h)`.
pub open spec fn slope<R: Scalar>(v: spec_fn(R) -> R, x: R, h: R) -> R {
    v(x.spec_plus(h)).spec_minus(v(x.spec_minus(h))).spec_over(R::spec_from_int(2).spec_times(h))
}

/// The Newton iterate that follows `x`: `x - v(x) / v'(x)`, the slope
/// estimated with step `h`.
pub open spec fn newton_step<R: Scalar>(v: spec_fn(R) -> R, x: R, h: R) -> R {
    x.spec_minus(v(x).spec_over(slope(v, x, h)))
}

/// The iteration stops at `x`: the step from `x` or the residual at `x` is
/// within the tolerance, and the next iterate is a finite number.
pub open spec fn newton_settles<R: Scalar>(v: spec_fn(R) -> R, x: R, tolerance: R) -> bool {
    let next = newton_step(v, x, tolerance);
    (within(next.spec_minus(x), tolerance) || within(v(x), tolerance)) && next.spec_is_finite()
}

/// What the iteration yields from `x` with `n` rounds left: the iterate after
/// the first point at which it settles, if one comes in time.
pub open spec fn newton_from<R: Scalar>(
    v: spec_fn(R) -> R,
    tolerance: R,
    x: R,
    n: nat,
) -> Option<R>
    decreases n,
{
    if n == 0 {
        None
    } else if newton_settles(v, x, tolerance) {
        Some(newton_step(v, x, tolerance))
    } else {
        newton_from(v, tolerance, newton_step(v, x, tolerance), (n - 1) as nat)
    }
}

/// The result of the Newton solver started at `x`.
pub open spec fn newton_root<R: Scalar>(v: spec_fn(R) -> R, s: Settings<R>, x: R) -> Option<R> {
    newton_from(v, s.tolerance, x, rounds(s.newton_cap))
}

/// Estimates the slope of `f` at `x` by the symmetric difference with step `h`.
pub fn derivative<R: Scalar, F: Fn(R) -> R>(f: &F, x: R, h: R) -> (d: R)
    requires
        callable(*f),
    ensures
        forall|v: spec_fn(R) -> R| #[trigger] computes(*f, v) ==> d == slope(v, x, h),
{
    let ahead = f(x.plus(h));
    let behind = f(x.minus(h));
    ahead.minus(behind).over(R::from_int(2).times(h))
}

/// Newton-Raphson from `x`. `None` is the ordinary outcome of an iteration
/// that did not settle within the cap.
pub fn newton<R: Scalar, F: Fn(R) -> R>(x: R, f: &F, s: &Settings<R>) -> (r: Option<R>)
    requires
        callable(*f),
    ensures
        forall|v: spec_fn(R) -> R| #[trigger] computes(*f, v) ==> r == newton_root(v, *s, x),
{
    let tolerance = s.tolerance;
    let cap = s.newton_cap;
    let mut at = x;
    let mut i: u32 = 1;
    while i < cap
        invariant
            callable(*f),
            1 <= i,
            tolerance == s.tolerance,
            cap == s.newton_cap,
            forall|v: spec_fn(R) -> R| #[trigger]
                computes(*f, v) ==> newton_root(v, *s, x) == newton_from(
                    v,
                    tolerance,
                    at,
                    remaining(cap, i),
                ),
        decreases cap - i,
    {
        let fx = f(at);
        let dfx = derivative(f, at, tolerance);
        let next = at.minus(fx.over(dfx));
        let settled = (next.minus(at).abs().at_most(tolerance) || fx.abs().at_most(tolerance))
            && next.is_finite();
        if settled {
            return Some(next);
        }
        at = next;
        i = i + 1;
    }
    None
}

} // verus!
