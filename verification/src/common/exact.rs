//! What holds of the engine in decimals, where sums and differences are exact
//! and a product keeps its sign once both factors are beyond a tolerance of a
//! billionth: the brackets of the bisection stay brackets, and the root of a
//! line of slope one is found.

use crate::common::bisection::{bisect_from, halve, midpoint, Halving};
use crate::common::find_bounds::changes_sign;
use crate::common::find_root::{root, same_sign, starting_point};
use crate::common::laws::lemma_reported_root;
use crate::common::newton::{newton_from, newton_root, newton_step, slope};
use crate::common::runs::bracket_after;
use crate::common::settings::{rounds, Settings};
use crate::decimal::{Decimal, LIMIT, SCALE};
use crate::scalar::{is_positive, within, zero, Scalar};
use crate::scaled::{lemma_magnitude_of_product, magnitude, quotient};
use vstd::arithmetic::div_mod::{
    lemma_div_by_multiple,
    lemma_div_is_ordered,
    lemma_div_multiples_vanish_quotient,
};
use vstd::prelude::*;

verus! {

/// The largest count of units of a value whose products with its like are in
/// range: `10^27`, a billion.
pub open spec fn value_bound() -> int {
    1_000_000_000_000_000_000_000_000_000
}

/// Every value of `v` is a number of at most a billion either way.
pub open spec fn in_reach(v: spec_fn(Decimal) -> Decimal) -> bool {
    forall|x: Decimal|
        (#[trigger] v(x)).units() matches Some(y) && -value_bound() <= y <= value_bound()
}

/// The tolerance is a number of at least a billionth.
pub open spec fn tells_signs(tolerance: Decimal) -> bool {
    tolerance.units() matches Some(t) && t >= 1_000_000_000
}

/// `a` and `b` are numbers in order, no further apart than the range.
pub open spec fn spans(a: Decimal, b: Decimal) -> bool {
    a.units() matches Some(ua) && b.units() matches Some(ub) && ua <= ub && ub - ua <= LIMIT
}

/// `x` is a number from `a` to `b`.
pub open spec fn lies_in(x: Decimal, a: Decimal, b: Decimal) -> bool {
    a.units() matches Some(ua) && b.units() matches Some(ub) && x.units() matches Some(ux) && ua
        <= ux <= ub
}

/// The rounded product of two counts beyond a tolerance of a billionth is in
/// range and has the sign of the product.
proof fn lemma_rounded_product_sign(ya: int, yb: int, t: int)
    requires
        t >= 1_000_000_000,
        t < magnitude(ya) <= value_bound(),
        t < magnitude(yb) <= value_bound(),
    ensures
        ({
            let q = quotient(ya * yb, SCALE as int);
            &&& -LIMIT <= q <= LIMIT
            &&& (q > 0) == ((ya > 0) == (yb > 0))
            &&& (q < 0) == ((ya > 0) != (yb > 0))
        }),
{
    let s = 1_000_000_000_000_000_000int;
    let m = magnitude(ya) * magnitude(yb);
    lemma_magnitude_of_product(ya, yb);
    assert(s <= m <= 1_000_000_000_000_000_000_000_000_000_000_000_000_000_000_000_000_000_000int)
        by (nonlinear_arith)
        requires
            m == magnitude(ya) * magnitude(yb),
            1_000_000_000 < magnitude(ya) <= 1_000_000_000_000_000_000_000_000_000,
            1_000_000_000 < magnitude(yb) <= 1_000_000_000_000_000_000_000_000_000,
            s == 1_000_000_000_000_000_000,
    ;
    lemma_div_is_ordered(s, m, s);
    lemma_div_is_ordered(
        m,
        1_000_000_000_000_000_000_000_000_000_000_000_000_000_000_000_000_000_000int,
        s,
    );
}

/// In decimals, the product of two values within reach and beyond the
/// tolerance is a number whose sign the signs of the values give.
proof fn lemma_product_sign(fa: Decimal, fb: Decimal, tolerance: Decimal)
    requires
        tells_signs(tolerance),
        fa.units() matches Some(ya) && -value_bound() <= ya <= value_bound(),
        fb.units() matches Some(yb) && -value_bound() <= yb <= value_bound(),
        !within(fa, tolerance),
        !within(fb, tolerance),
    ensures
        ({
            let p = fa.spec_times(fb);
            let alike = (fa.units()->0 > 0) == (fb.units()->0 > 0);
            &&& p.units() is Some
            &&& is_positive(p) == alike
            &&& p.spec_below(zero()) == !alike
            &&& p.spec_at_most(zero()) == !alike
        }),
{
    lemma_rounded_product_sign(fa.units()->0, fb.units()->0, tolerance.units()->0);
}

/// In decimals, the midpoint of two numbers in order lies between them.
pub proof fn lemma_midpoint_lies_between(a: Decimal, b: Decimal)
    requires
        spans(a, b),
    ensures
        lies_in(midpoint(a, b), a, b),
        midpoint(a, b).units() == Some(a.units()->0 + (b.units()->0 - a.units()->0) / 2),
{
    let d = b.units()->0 - a.units()->0;
    let s = 1_000_000_000_000_000_000int;
    lemma_div_multiples_vanish_quotient(s, d, 2);
    assert(magnitude(d * SCALE) == s * d && magnitude(2 * SCALE) == s * 2) by (nonlinear_arith)
        requires
            d >= 0,
            s == SCALE,
            s > 0,
    ;
}

/// A round that goes on replaces one end of its bracket by the midpoint and
/// keeps the other.
pub proof fn lemma_halving_replaces_one_end<R: Scalar>(
    v: spec_fn(R) -> R,
    tolerance: R,
    a: R,
    b: R,
)
    ensures
        halve(v, tolerance, a, b) matches Halving::Narrowed(lower, upper) ==> (lower == a && upper
            == midpoint(a, b)) || (lower == midpoint(a, b) && upper == b),
{
}

/// In decimals, a round that goes on leaves a bracket inside the one it
/// started from, with its ends in order.
pub proof fn lemma_halving_stays_inside(
    v: spec_fn(Decimal) -> Decimal,
    tolerance: Decimal,
    a: Decimal,
    b: Decimal,
)
    requires
        spans(a, b),
    ensures
        halve(v, tolerance, a, b) matches Halving::Narrowed(lower, upper) ==> spans(lower, upper)
            && lies_in(lower, a, b) && lies_in(upper, a, b),
{
    lemma_midpoint_lies_between(a, b);
}

/// In decimals, the bisection halves only brackets across which the sign
/// changes, and the half it keeps is one: where the values of the function
/// are within reach and the tolerance is at least a billionth, the values at
/// the ends have a product of zero or less before a round that goes on and
/// after it.
pub proof fn lemma_halving_keeps_the_sign_change(
    v: spec_fn(Decimal) -> Decimal,
    tolerance: Decimal,
    a: Decimal,
    b: Decimal,
)
    requires
        in_reach(v),
        tells_signs(tolerance),
    ensures
        halve(v, tolerance, a, b) matches Halving::Narrowed(lower, upper) ==> changes_sign(v, a, b)
            && changes_sign(v, lower, upper),
{
    if halve(v, tolerance, a, b) is Narrowed {
        lemma_product_sign(v(a), v(b), tolerance);
        lemma_product_sign(v(a), v(midpoint(a, b)), tolerance);
        lemma_product_sign(v(midpoint(a, b)), v(b), tolerance);
    }
}

/// Bracket monotonicity in decimals. From a bracket with its ends in order
/// across which the sign changes, every bracket that the bisection comes to
/// hold lies inside the first, has its ends in order, and has values at its
/// ends with a product of zero or less. The values of the function are to be
/// within reach and the tolerance at least a billionth.
pub proof fn lemma_brackets_stay_brackets(
    v: spec_fn(Decimal) -> Decimal,
    tolerance: Decimal,
    a: Decimal,
    b: Decimal,
    k: nat,
)
    requires
        in_reach(v),
        tells_signs(tolerance),
        spans(a, b),
        changes_sign(v, a, b),
        bracket_after(v, tolerance, a, b, k) is Some,
    ensures
        ({
            let (lower, upper) = bracket_after(v, tolerance, a, b, k)->0;
            &&& spans(lower, upper)
            &&& lies_in(lower, a, b)
            &&& lies_in(upper, a, b)
            &&& changes_sign(v, lower, upper)
        }),
    decreases k,
{
    if k > 0 {
        lemma_brackets_stay_brackets(v, tolerance, a, b, (k - 1) as nat);
        let (lower, upper) = bracket_after(v, tolerance, a, b, (k - 1) as nat)->0;
        lemma_halving_stays_inside(v, tolerance, lower, upper);
        lemma_halving_keeps_the_sign_change(v, tolerance, lower, upper);
    }
}

/// In decimals, whatever the bisection reports on a bracket with its ends in
/// order lies in the bracket.
pub proof fn lemma_bisection_stays_inside(
    v: spec_fn(Decimal) -> Decimal,
    tolerance: Decimal,
    a: Decimal,
    b: Decimal,
    n: nat,
)
    requires
        spans(a, b),
    ensures
        bisect_from(v, tolerance, a, b, n) matches Some(r) ==> lies_in(r, a, b),
    decreases n,
{
    if n > 0 {
        lemma_midpoint_lies_between(a, b);
        match halve(v, tolerance, a, b) {
            Halving::Done(_) => {},
            Halving::Narrowed(lower, upper) => {
                lemma_bisection_stays_inside(v, tolerance, lower, upper, (n - 1) as nat);
            },
        }
    }
}

/// The line of slope one that crosses zero at `c`.
pub open spec fn line_through(c: Decimal) -> spec_fn(Decimal) -> Decimal {
    |x: Decimal| x.spec_minus(c)
}

/// The number is at most `10^36` units either way, so that sums of a few such
/// numbers are in range.
pub open spec fn moderate(x: Decimal) -> bool {
    x.units() matches Some(u) && -1_000_000_000_000_000_000_000_000_000_000_000_000 <= u
        <= 1_000_000_000_000_000_000_000_000_000_000_000_000
}

/// The quotients that the Newton step on a line of slope one takes are exact.
proof fn lemma_exact_quotients(y: int, t: int)
    requires
        t > 0,
    ensures
        quotient(y * SCALE, SCALE as int) == y,
        quotient((2 * t) * SCALE, 2 * t) == SCALE,
{
    let s = 1_000_000_000_000_000_000int;
    lemma_magnitude_of_product(y, s);
    lemma_div_by_multiple(magnitude(y), s);
    lemma_div_by_multiple(s, 2 * t);
    assert((2 * t) * SCALE == s * (2 * t)) by (nonlinear_arith)
        requires
            s == SCALE,
    ;
}

/// In decimals, the Newton step on a line of slope one lands on its root:
/// the slope is estimated as one, and the step takes the whole residual.
pub proof fn lemma_newton_step_on_a_line(c: Decimal, x: Decimal, tolerance: Decimal)
    requires
        moderate(c),
        moderate(x),
        moderate(tolerance),
        tolerance.units()->0 > 0,
    ensures
        slope(line_through(c), x, tolerance) == Decimal::Finite(SCALE),
        newton_step(line_through(c), x, tolerance) == c,
{
    let t = tolerance.units()->0;
    let y = x.units()->0 - c.units()->0;
    lemma_exact_quotients(y, t);
    assert(Decimal::spec_from_int(2).spec_times(tolerance).units() == Some(2 * t)) by {
        lemma_exact_quotients(2 * t, t);
        assert((2 * SCALE) * t == (2 * t) * SCALE) by (nonlinear_arith);
    }
}

/// Convergence on lines. In decimals, the Newton solver finds the root of a
/// line of slope one exactly, from any guess, in two rounds at most.
pub proof fn lemma_newton_finds_the_root_of_a_line(c: Decimal, x: Decimal, s: Settings<Decimal>)
    requires
        moderate(c),
        moderate(x),
        moderate(s.tolerance),
        s.tolerance.units()->0 > 0,
        s.newton_cap >= 3,
    ensures
        newton_root(line_through(c), s, x) == Some(c),
{
    lemma_newton_step_on_a_line(c, x, s.tolerance);
    lemma_newton_step_on_a_line(c, c, s.tolerance);
    assert(newton_from(line_through(c), s.tolerance, c, (rounds(s.newton_cap) - 1) as nat)
        == Some(c));
}

/// Convergence on lines. In decimals, a root that the engine reports for a
/// line of slope one is within the tolerance of the root of the line, from
/// whatever guess; from a guess with the sign of the root, the engine
/// reports the root itself.
pub proof fn lemma_root_of_a_line(c: Decimal, s: Settings<Decimal>, guess: Option<Decimal>)
    requires
        moderate(c),
        moderate(starting_point(guess)),
        moderate(s.tolerance),
        s.tolerance.units()->0 > 0,
        s.newton_cap >= 3,
    ensures
        same_sign(c, starting_point(guess)) ==> root(line_through(c), s, guess) == Some(c),
        root(line_through(c), s, guess) matches Some(r) ==> within(r.spec_minus(c), s.tolerance),
{
    lemma_newton_finds_the_root_of_a_line(c, starting_point(guess), s);
    if root(line_through(c), s, guess) is Some {
        lemma_reported_root(line_through(c), s, guess, root(line_through(c), s, guess)->0);
    }
}

} // verus!
