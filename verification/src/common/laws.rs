//! What holds of the engine on every valuation function.
//!
//! The laws are stated over the functions that the contracts of the engine are
//! stated over, so each holds of every run of the executable code on a
//! callable that computes the valuation function.

use crate::common::bisection::{bisect_from, halve, Halving};
use crate::common::bounds::Bounds;
use crate::common::find_bounds::{
    bounds_from,
    changes_sign,
    confine,
    found_bounds,
    is_bracket,
    widen_lower,
    widen_upper,
};
use crate::common::find_root::{bracketed_root, root, same_sign, starting_point, trusted_newton_root};
use crate::common::newton::{newton_from, newton_root, newton_settles, newton_step, slope};
use crate::common::runs::bracket_after;
use crate::common::settings::{rounds, Settings};
use crate::common::valuation::computes;
use crate::decimal::Decimal;
use crate::scalar::{is_positive, within, Scalar};
use vstd::prelude::*;

verus! {

/// No hidden state: the engine's answer is a function of the valuation
/// function's values, the settings and the guess. Any two results that the
/// engine may give for one callable, one set of settings and one guess are the
/// same, whenever the callable computes a function at all.
pub proof fn lemma_find_root_repeats<R: Scalar, F: Fn(R) -> R>(
    func: F,
    v: spec_fn(R) -> R,
    s: Settings<R>,
    guess: Option<R>,
    first: Option<R>,
    second: Option<R>,
)
    requires
        computes(func, v),
        forall|w: spec_fn(R) -> R| #[trigger] computes(func, w) ==> first == root(w, s, guess),
        forall|w: spec_fn(R) -> R| #[trigger] computes(func, w) ==> second == root(w, s, guess),
    ensures
        first == second,
{
}

/// Two valuation functions with the same values have the same root.
pub proof fn lemma_root_depends_on_values<R: Scalar>(
    v: spec_fn(R) -> R,
    w: spec_fn(R) -> R,
    s: Settings<R>,
    guess: Option<R>,
)
    requires
        forall|x: R| #[trigger] v(x) == w(x),
    ensures
        root(v, s, guess) == root(w, s, guess),
{
    assert(v =~= w);
}

/// The tie-break: a result of the Newton solver is the engine's answer if it
/// has the sign of the starting point. If it has the other sign, or there is
/// none, the answer is that of bracketing and bisection.
pub proof fn lemma_same_sign_tie_break<R: Scalar>(
    v: spec_fn(R) -> R,
    s: Settings<R>,
    guess: Option<R>,
)
    ensures
        root(v, s, guess) == match newton_root(v, s, starting_point(guess)) {
            Some(r) => if same_sign(r, starting_point(guess)) {
                Some(r)
            } else {
                bracketed_root(v, s, starting_point(guess))
            },
            None => bracketed_root(v, s, starting_point(guess)),
        },
{
}

/// Every root that the engine reports is of one of two kinds: a finite
/// result of the Newton solver that has the sign of the starting point, or a
/// result of the bisection, at which the residual is within the tolerance.
pub proof fn lemma_reported_root<R: Scalar>(
    v: spec_fn(R) -> R,
    s: Settings<R>,
    guess: Option<R>,
    r: R,
)
    requires
        root(v, s, guess) == Some(r),
    ensures
        ({
            let x = starting_point(guess);
            ||| newton_root(v, s, x) == Some(r) && same_sign(r, x) && r.spec_is_finite()
            ||| trusted_newton_root(v, s, x) is None && bracketed_root(v, s, x) == Some(r)
                && within(v(r), s.tolerance)
        }),
{
    let x = starting_point(guess);
    let n = rounds(s.bisection_cap);
    lemma_newton_root_is_finite(v, s.tolerance, x, rounds(s.newton_cap));
    if trusted_newton_root(v, s, x) is None {
        match found_bounds(v, s, x, Bounds::positive()) {
            Some(b) => {
                lemma_bisection_residual(v, s.tolerance, b.lower, b.upper, n);
            },
            None => match found_bounds(v, s, x, Bounds::negative()) {
                Some(b) => {
                    lemma_bisection_residual(v, s.tolerance, b.lower, b.upper, n);
                },
                None => {},
            },
        }
    }
}

/// A function whose values never have a product of zero or less has no
/// bracket.
pub proof fn lemma_one_signed_has_no_bounds<R: Scalar>(
    v: spec_fn(R) -> R,
    s: Settings<R>,
    side: Bounds<R>,
    low: R,
    upp: R,
    n: nat,
)
    requires
        forall|x: R, y: R| !#[trigger] changes_sign(v, x, y),
    ensures
        bounds_from(v, s, side, low, upp, n) is None,
    decreases n,
{
    if n > 0 {
        let lower = confine(low, side, s.tolerance);
        let upper = confine(upp, side, s.tolerance);
        lemma_one_signed_has_no_bounds(
            v,
            s,
            side,
            widen_lower(lower, upper, s.factor),
            widen_upper(lower, upper, s.factor),
            (n - 1) as nat,
        );
    }
}

/// No root where there is no sign change: if the values of the function
/// never have a product of zero or less, and the Newton solver contributes
/// nothing from the starting point, the engine reports no root.
pub proof fn lemma_one_signed_has_no_root<R: Scalar>(
    v: spec_fn(R) -> R,
    s: Settings<R>,
    guess: Option<R>,
)
    requires
        forall|x: R, y: R| !#[trigger] changes_sign(v, x, y),
        trusted_newton_root(v, s, starting_point(guess)) is None,
    ensures
        root(v, s, guess) is None,
{
    let x = starting_point(guess);
    let positive = Bounds::<R>::positive();
    let negative = Bounds::<R>::negative();
    lemma_one_signed_has_no_bounds(
        v,
        s,
        positive,
        confine(x.spec_minus(s.shift), positive, s.tolerance),
        confine(x.spec_plus(s.shift), positive, s.tolerance),
        rounds(s.bounds_cap),
    );
    lemma_one_signed_has_no_bounds(
        v,
        s,
        negative,
        confine(x.spec_minus(s.shift), negative, s.tolerance),
        confine(x.spec_plus(s.shift), negative, s.tolerance),
        rounds(s.bounds_cap),
    );
}

/// A residual within the tolerance at the starting point ends the search in
/// one Newton round: the engine reports the first Newton iterate, provided
/// that the solver has a round to make and that the iterate is finite and has
/// the sign of the starting point.
pub proof fn lemma_zero_at_guess<R: Scalar>(v: spec_fn(R) -> R, s: Settings<R>, guess: Option<R>)
    requires
        s.newton_cap >= 2,
        within(v(starting_point(guess)), s.tolerance),
        newton_step(v, starting_point(guess), s.tolerance).spec_is_finite(),
        same_sign(newton_step(v, starting_point(guess), s.tolerance), starting_point(guess)),
    ensures
        root(v, s, guess) == Some(newton_step(v, starting_point(guess), s.tolerance)),
{
}

/// In decimals, a guess at which the function is exactly zero is the root: if
/// the slope there is a number other than zero, the engine reports the guess
/// itself.
pub proof fn lemma_decimal_root_at_guess(
    v: spec_fn(Decimal) -> Decimal,
    s: Settings<Decimal>,
    guess: Option<Decimal>,
)
    requires
        s.newton_cap >= 2,
        s.tolerance.units() matches Some(t) && t >= 0,
        starting_point(guess).units() is Some,
        v(starting_point(guess)) == Decimal::Finite(0),
        slope(v, starting_point(guess), s.tolerance).units() matches Some(d) && d != 0,
    ensures
        root(v, s, guess) == Some(starting_point(guess)),
{
    let x = starting_point(guess);
    lemma_zero_at_guess(v, s, guess);
}

/// The bisection never halves a bracket across which the sign does not
/// change: before every round after which the search goes on, the values at
/// the ends of the bracket have a product that is not positive.
pub proof fn lemma_halved_brackets_change_sign<R: Scalar>(
    v: spec_fn(R) -> R,
    tolerance: R,
    a: R,
    b: R,
    k: nat,
)
    requires
        bracket_after(v, tolerance, a, b, k + 1) is Some,
    ensures
        bracket_after(v, tolerance, a, b, k) matches Some((lower, upper)) && !is_positive(
            v(lower).spec_times(v(upper)),
        ),
{
}

/// A bracket that the search reports is one: its ends are in order, and the
/// values at its ends have a product of zero or less.
pub proof fn lemma_found_bounds_bracket<R: Scalar>(
    v: spec_fn(R) -> R,
    s: Settings<R>,
    side: Bounds<R>,
    low: R,
    upp: R,
    n: nat,
)
    ensures
        bounds_from(v, s, side, low, upp, n) matches Some(b) ==> is_bracket(v, b.lower, b.upper),
    decreases n,
{
    if n > 0 {
        let lower = confine(low, side, s.tolerance);
        let upper = confine(upp, side, s.tolerance);
        if !is_bracket(v, lower, upper) {
            lemma_found_bounds_bracket(
                v,
                s,
                side,
                widen_lower(lower, upper, s.factor),
                widen_upper(lower, upper, s.factor),
                (n - 1) as nat,
            );
        }
    }
}

/// Whatever the bisection reports has a residual within the tolerance.
pub proof fn lemma_bisection_residual<R: Scalar>(
    v: spec_fn(R) -> R,
    tolerance: R,
    a: R,
    b: R,
    n: nat,
)
    ensures
        bisect_from(v, tolerance, a, b, n) matches Some(r) ==> within(v(r), tolerance),
    decreases n,
{
    if n > 0 {
        match halve(v, tolerance, a, b) {
            Halving::Done(_) => {},
            Halving::Narrowed(lower, upper) => {
                lemma_bisection_residual(v, tolerance, lower, upper, (n - 1) as nat);
            },
        }
    }
}

/// Whatever the Newton solver reports is a finite number.
pub proof fn lemma_newton_root_is_finite<R: Scalar>(v: spec_fn(R) -> R, tolerance: R, x: R, n: nat)
    ensures
        newton_from(v, tolerance, x, n) matches Some(r) ==> r.spec_is_finite(),
    decreases n,
{
    if n > 0 && !newton_settles(v, x, tolerance) {
        lemma_newton_root_is_finite(v, tolerance, newton_step(v, x, tolerance), (n - 1) as nat);
    }
}

} // verus!
