//! The global solver: a bracket is halved until the residual at an end or at
//! the midpoint is within the tolerance.

use crate::common::bounds::Bounds;
use crate::common::settings::{remaining, rounds, Settings};
use crate::common::valuation::{callable, computes};
use crate::scalar::{is_positive, within, zero, Scalar};
use vstd::prelude::*;

verus! {

/// The midpoint `a + (b - a) / 2`.
pub open spec fn midpoint<R: Scalar>(a: R, b: R) -> R {
    a.spec_plus(b.spec_minus(a).spec_over(R::spec_from_int(2)))
}

/// One round on the bracket from `a` to `b`.
pub enum Halving<R> {
    /// The round ended the search with this result.
    Done(Option<R>),
    /// The search goes on in this half.
    Narrowed(R, R),
}

/// What one round does on the bracket from `a` to `b`.
///
/// An end, then the midpoint, is returned if the residual there is within the
/// tolerance. The search gives up if the values at the ends have a positive
/// product, or if the product of the values at the lower end and at the
/// midpoint is neither negative nor positive. Else it keeps the half across
/// which the sign changes.
pub open spec fn halve<R: Scalar>(v: spec_fn(R) -> R, tolerance: R, a: R, b: R) -> Halving<R> {
    let mid = midpoint(a, b);
    let product = v(a).spec_times(v(mid));
    if within(v(a), tolerance) {
        Halving::Done(Some(a))
    } else if within(v(b), tolerance) {
        Halving::Done(Some(b))
    } else if is_positive(v(a).spec_times(v(b))) {
        Halving::Done(None)
    } else if within(v(mid), tolerance) {
        Halving::Done(Some(mid))
    } else if product.spec_below(zero()) {
        Halving::Narrowed(a, mid)
    } else if is_positive(product) {
        Halving::Narrowed(mid, b)
    } else {
        Halving::Done(None)
    }
}

/// What the bisection yields on the bracket from `a` to `b` with `n` rounds
/// left.
pub open spec fn bisect_from<R: Scalar>(
    v: spec_fn(R) -> R,
    tolerance: R,
    a: R,
    b: R,
    n: nat,
) -> Option<R>
    decreases n,
{
    if n == 0 {
        None
    } else {
        match halve(v, tolerance, a, b) {
            Halving::Done(r) => r,
            Halving::Narrowed(lower, upper) => bisect_from(
                v,
                tolerance,
                lower,
                upper,
                (n - 1) as nat,
            ),
        }
    }
}

/// The result of the bisection on `bounds`.
pub open spec fn bisection_root<R: Scalar>(
    v: spec_fn(R) -> R,
    s: Settings<R>,
    bounds: Bounds<R>,
) -> Option<R> {
    bisect_from(v, s.tolerance, bounds.lower, bounds.upper, rounds(s.bisection_cap))
}

/// Does one round of the bisection on the bracket from `a` to `b`.
pub fn halving<R: Scalar, F: Fn(R) -> R>(a: R, b: R, f: &F, tolerance: R) -> (r: Halving<R>)
    requires
        callable(*f),
    ensures
        forall|v: spec_fn(R) -> R| #[trigger] computes(*f, v) ==> r == halve(v, tolerance, a, b),
{
    let origin = R::from_int(0);
    let fa = f(a);
    if fa.abs().at_most(tolerance) {
        return Halving::Done(Some(a));
    }
    let fb = f(b);
    if fb.abs().at_most(tolerance) {
        return Halving::Done(Some(b));
    }
    if origin.below(fa.times(fb)) {
        return Halving::Done(None);
    }
    let mid = a.plus(b.minus(a).over(R::from_int(2)));
    let fmid = f(mid);
    if fmid.abs().at_most(tolerance) {
        return Halving::Done(Some(mid));
    }
    let product = fa.times(fmid);
    if product.below(origin) {
        Halving::Narrowed(a, mid)
    } else if origin.below(product) {
        Halving::Narrowed(mid, b)
    } else {
        Halving::Done(None)
    }
}

/// Bisects `bounds`. `None` when the cap is reached, when the values at the
/// ends of a bracket turn out to have a positive product, or when a probe
/// yields no sign to go by.
pub fn bisection<R: Scalar, F: Fn(R) -> R>(bounds: Bounds<R>, f: &F, s: &Settings<R>) -> (r: Option<
    R,
>)
    requires
        callable(*f),
    ensures
        forall|v: spec_fn(R) -> R| #[trigger] computes(*f, v) ==> r == bisection_root(v, *s, bounds),
{
    let tolerance = s.tolerance;
    let cap = s.bisection_cap;
    let mut a = bounds.lower;
    let mut b = bounds.upper;
    let mut i: u32 = 1;
    while i < cap
        invariant
            callable(*f),
            1 <= i,
            tolerance == s.tolerance,
            cap == s.bisection_cap,
            forall|v: spec_fn(R) -> R| #[trigger]
                computes(*f, v) ==> bisection_root(v, *s, bounds) == bisect_from(
                    v,
                    tolerance,
                    a,
                    b,
                    remaining(cap, i),
                ),
        decreases cap - i,
    {
        match halving(a, b, f, tolerance) {
            Halving::Done(r) => {
                return r;
            },
            Halving::Narrowed(lower, upper) => {
                a = lower;
                b = upper;
            },
        }
        i = i + 1;
    }
    None
}

} // verus!
