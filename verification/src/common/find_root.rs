//! The orchestrator: Newton first, and where that fails or lands on the other
//! side of zero, a bracket search on the positive half-line, then on the
//! negative one, and a bisection of the first bracket found.

use crate::common::bisection::{bisection, bisection_root};
use crate::common::bounds::Bounds;
use crate::common::find_bounds::{find_bounds, found_bounds};
use crate::common::newton::{newton, newton_root};
use crate::common::settings::Settings;
use crate::common::valuation::{callable, computes};
use crate::scalar::{zero, Scalar};
use vstd::prelude::*;

verus! {

/// Both values carry the same sign.
pub open spec fn same_sign<R: Scalar>(x: R, y: R) -> bool {
    x.spec_is_negative() == y.spec_is_negative()
}

/// The guess, or zero where there is none.
pub open spec fn starting_point<R: Scalar>(guess: Option<R>) -> R {
    match guess {
        Some(x) => x,
        None => zero(),
    }
}

/// What the Newton solver contributes from `x`: its result, if that has the
/// sign of `x`.
pub open spec fn trusted_newton_root<R: Scalar>(v: spec_fn(R) -> R, s: Settings<R>, x: R) -> Option<
    R,
> {
    match newton_root(v, s, x) {
        Some(r) => if same_sign(r, x) {
            Some(r)
        } else {
            None
        },
        None => None,
    }
}

/// What bracketing and bisection yield around `x`: the bisection of the
/// bracket on the positive half-line if the search finds one there, else of
/// the bracket on the negative half-line, else nothing.
pub open spec fn bracketed_root<R: Scalar>(v: spec_fn(R) -> R, s: Settings<R>, x: R) -> Option<R> {
    match found_bounds(v, s, x, Bounds::positive()) {
        Some(b) => bisection_root(v, s, b),
        None => match found_bounds(v, s, x, Bounds::negative()) {
            Some(b) => bisection_root(v, s, b),
            None => None,
        },
    }
}

/// The root that the engine reports for `v` and `guess`.
pub open spec fn root<R: Scalar>(v: spec_fn(R) -> R, s: Settings<R>, guess: Option<R>) -> Option<
    R,
> {
    let x = starting_point(guess);
    match trusted_newton_root(v, s, x) {
        Some(r) => Some(r),
        None => bracketed_root(v, s, x),
    }
}

/// Finds a rate at which `func` crosses zero, starting from `x` or from zero.
/// `None` when no root could be located.
pub fn find_root<R: Scalar, F: Fn(R) -> R>(x: Option<R>, func: F, s: &Settings<R>) -> (r: Option<R>)
    requires
        callable(func),
    ensures
        forall|v: spec_fn(R) -> R| #[trigger] computes(func, v) ==> r == root(v, *s, x),
{
    let x = match x {
        Some(num) => num,
        None => R::from_int(0),
    };
    match newton(x, &func, s) {
        Some(r) => {
            if r.is_negative() == x.is_negative() {
                return Some(r);
            }
        },
        None => {},
    }
    match find_bounds(x, Bounds::new_positive(), &func, s) {
        Some(b_pos) => bisection(b_pos, &func, s),
        None => match find_bounds(x, Bounds::new_negative(), &func, s) {
            Some(b_neg) => bisection(b_neg, &func, s),
            None => None,
        },
    }
}

} // verus!
