//! The bracket search: an interval around the starting point is widened
//! geometrically, inside one half-line, until the valuation function changes
//! sign across it.

use crate::common::bounds::Bounds;
use crate::common::settings::{remaining, rounds, Settings};
use crate::common::valuation::{callable, computes};
use crate::scalar::{zero, Scalar};
use vstd::prelude::*;

verus! {

/// `val` brought into the half-line `side`: a value at or beyond an end of the
/// half-line is replaced by the point one tolerance inside that end.
pub open spec fn confine<R: Scalar>(val: R, side: Bounds<R>, tolerance: R) -> R {
    if val.spec_at_most(side.lower) {
        side.lower.spec_plus(tolerance)
    } else if side.upper.spec_at_most(val) {
        side.upper.spec_minus(tolerance)
    } else {
        val
    }
}

/// Where the lower end moves when no sign change was seen: down by `factor`
/// widths of the interval.
pub open spec fn widen_lower<R: Scalar>(lower: R, upper: R, factor: R) -> R {
    lower.spec_plus(factor.spec_times(lower.spec_minus(upper)))
}

/// Where the upper end moves when no sign change was seen: up by `factor`
/// widths of the interval.
pub open spec fn widen_upper<R: Scalar>(lower: R, upper: R, factor: R) -> R {
    upper.spec_plus(factor.spec_times(upper.spec_minus(lower)))
}

/// The product of the values at the two ends is zero or negative.
pub open spec fn changes_sign<R: Scalar>(v: spec_fn(R) -> R, lower: R, upper: R) -> bool {
    v(lower).spec_times(v(upper)).spec_at_most(zero())
}

/// The interval from `lower` to `upper` is a bracket of `v`: its ends are in
/// order and `v` changes sign across it.
pub open spec fn is_bracket<R: Scalar>(v: spec_fn(R) -> R, lower: R, upper: R) -> bool {
    lower.spec_at_most(upper) && changes_sign(v, lower, upper)
}

/// What the search yields from the candidate ends `low` and `upp` with `n`
/// rounds left: the first confined interval that is a bracket.
pub open spec fn bounds_from<R: Scalar>(
    v: spec_fn(R) -> R,
    s: Settings<R>,
    side: Bounds<R>,
    low: R,
    upp: R,
    n: nat,
) -> Option<Bounds<R>>
    decreases n,
{
    let lower = confine(low, side, s.tolerance);
    let upper = confine(upp, side, s.tolerance);
    if n == 0 {
        None
    } else if is_bracket(v, lower, upper) {
        Some(Bounds { lower, upper })
    } else {
        bounds_from(
            v,
            s,
            side,
            widen_lower(lower, upper, s.factor),
            widen_upper(lower, upper, s.factor),
            (n - 1) as nat,
        )
    }
}

/// The result of the bracket search around `x` in the half-line `side`.
pub open spec fn found_bounds<R: Scalar>(
    v: spec_fn(R) -> R,
    s: Settings<R>,
    x: R,
    side: Bounds<R>,
) -> Option<Bounds<R>> {
    bounds_from(
        v,
        s,
        side,
        confine(x.spec_minus(s.shift), side, s.tolerance),
        confine(x.spec_plus(s.shift), side, s.tolerance),
        rounds(s.bounds_cap),
    )
}

/// Computes [`confine`].
pub fn confined<R: Scalar>(val: R, side: &Bounds<R>, tolerance: R) -> (r: R)
    ensures
        r == confine(val, *side, tolerance),
{
    if val.at_most(side.lower) {
        side.lower.plus(tolerance)
    } else if side.upper.at_most(val) {
        side.upper.minus(tolerance)
    } else {
        val
    }
}

/// Searches the half-line `bounds` for a bracket of `f` around `x`. `None`
/// when the cap is reached without one.
pub fn find_bounds<R: Scalar, F: Fn(R) -> R>(x: R, bounds: Bounds<R>, f: &F, s: &Settings<R>) -> (r:
    Option<Bounds<R>>)
    requires
        callable(*f),
    ensures
        forall|v: spec_fn(R) -> R| #[trigger] computes(*f, v) ==> r == found_bounds(v, *s, x, bounds),
        r matches Some(b) ==> b.ordered(),
{
    let tolerance = s.tolerance;
    let factor = s.factor;
    let cap = s.bounds_cap;
    let mut low = confined(x.minus(s.shift), &bounds, tolerance);
    let mut upp = confined(x.plus(s.shift), &bounds, tolerance);
    let mut i: u32 = 1;
    while i < cap
        invariant
            callable(*f),
            1 <= i,
            tolerance == s.tolerance,
            factor == s.factor,
            cap == s.bounds_cap,
            forall|v: spec_fn(R) -> R| #[trigger]
                computes(*f, v) ==> found_bounds(v, *s, x, bounds) == bounds_from(
                    v,
                    *s,
                    bounds,
                    low,
                    upp,
                    remaining(cap, i),
                ),
        decreases cap - i,
    {
        let lower = confined(low, &bounds, tolerance);
        let upper = confined(upp, &bounds, tolerance);
        let product = f(lower).times(f(upper));
        let found = lower.at_most(upper) && product.at_most(R::from_int(0));
        if found {
            return Some(Bounds::new_from_range(lower, upper));
        }
        low = lower.plus(factor.times(lower.minus(upper)));
        upp = upper.plus(factor.times(upper.minus(lower)));
        i = i + 1;
    }
    None
}

} // verus!
