//! The runs of the three solvers, round by round.
//!
//! Each solver is a loop that stops at the first round that meets a test. Here
//! the rounds are laid out as sequences, and each result is shown to be what
//! the first such round gives.

use crate::common::bisection::{bisect_from, halve, Halving};
use crate::common::bounds::Bounds;
use crate::common::find_bounds::{bounds_from, confine, is_bracket, widen_lower, widen_upper};
use crate::common::newton::{newton_from, newton_settles, newton_step};
use crate::common::settings::Settings;
use crate::scalar::Scalar;
use vstd::prelude::*;

verus! {

/// The `k`th Newton iterate from `x`.
pub open spec fn newton_iterate<R: Scalar>(v: spec_fn(R) -> R, tolerance: R, x: R, k: nat) -> R
    decreases k,
{
    if k == 0 {
        x
    } else {
        newton_step(v, newton_iterate(v, tolerance, x, (k - 1) as nat), tolerance)
    }
}

/// The iteration from `x` settles at its `k`th iterate.
pub open spec fn settles_at<R: Scalar>(v: spec_fn(R) -> R, tolerance: R, x: R, k: nat) -> bool {
    newton_settles(v, newton_iterate(v, tolerance, x, k), tolerance)
}

/// The iterates from the Newton step of `x` are the later iterates from `x`.
pub proof fn lemma_newton_iterate_shifts<R: Scalar>(v: spec_fn(R) -> R, tolerance: R, x: R, k: nat)
    ensures
        newton_iterate(v, tolerance, newton_step(v, x, tolerance), k) == newton_iterate(
            v,
            tolerance,
            x,
            k + 1,
        ),
    decreases k,
{
    if k > 0 {
        lemma_newton_iterate_shifts(v, tolerance, x, (k - 1) as nat);
    }
    assert(newton_iterate(v, tolerance, x, k + 1) == newton_step(
        v,
        newton_iterate(v, tolerance, x, k),
        tolerance,
    ));
}

/// The Newton solver reports the iterate that follows the first one at which
/// the iteration settles, if the iteration settles within its rounds, and
/// nothing if it does not.
pub proof fn lemma_newton_reports_first_settled<R: Scalar>(
    v: spec_fn(R) -> R,
    tolerance: R,
    x: R,
    n: nat,
)
    ensures
        match newton_from(v, tolerance, x, n) {
            Some(r) => exists|k: nat|
                k < n && #[trigger] settles_at(v, tolerance, x, k) && r == newton_iterate(
                    v,
                    tolerance,
                    x,
                    k + 1,
                ) && forall|j: nat| j < k ==> !#[trigger] settles_at(v, tolerance, x, j),
            None => forall|k: nat| k < n ==> !#[trigger] settles_at(v, tolerance, x, k),
        },
    decreases n,
{
    if n > 0 {
        if newton_settles(v, x, tolerance) {
            assert(settles_at(v, tolerance, x, 0));
        } else {
            let next = newton_step(v, x, tolerance);
            lemma_newton_reports_first_settled(v, tolerance, next, (n - 1) as nat);
            assert forall|j: nat|
                #![auto]
                settles_at(v, tolerance, next, j) == settles_at(v, tolerance, x, j + 1) by {
                lemma_newton_iterate_shifts(v, tolerance, x, j);
            }
            match newton_from(v, tolerance, next, (n - 1) as nat) {
                Some(r) => {
                    let k = choose|k: nat|
                        k < n - 1 && #[trigger] settles_at(v, tolerance, next, k) && r
                            == newton_iterate(v, tolerance, next, k + 1) && forall|j: nat|
                            j < k ==> !#[trigger] settles_at(v, tolerance, next, j);
                    lemma_newton_iterate_shifts(v, tolerance, x, k + 1);
                    assert forall|j: nat| j < k + 1 implies !#[trigger] settles_at(
                        v,
                        tolerance,
                        x,
                        j,
                    ) by {
                        if j > 0 {
                            assert(settles_at(v, tolerance, next, (j - 1) as nat) == settles_at(
                                v,
                                tolerance,
                                x,
                                (j - 1) as nat + 1,
                            ));
                        }
                    }
                },
                None => {
                    assert forall|k: nat| k < n implies !#[trigger] settles_at(
                        v,
                        tolerance,
                        x,
                        k,
                    ) by {
                        if k > 0 {
                            assert(settles_at(v, tolerance, next, (k - 1) as nat) == settles_at(
                                v,
                                tolerance,
                                x,
                                (k - 1) as nat + 1,
                            ));
                        }
                    }
                },
            }
        }
    }
}

/// The candidate ends that the bracket search holds after `k` rounds from the
/// candidates `low` and `upp`. They do not depend on the function.
pub open spec fn candidates_after<R: Scalar>(
    s: Settings<R>,
    side: Bounds<R>,
    low: R,
    upp: R,
    k: nat,
) -> (R, R)
    decreases k,
{
    if k == 0 {
        (low, upp)
    } else {
        let before = candidates_after(s, side, low, upp, (k - 1) as nat);
        let lower = confine(before.0, side, s.tolerance);
        let upper = confine(before.1, side, s.tolerance);
        (widen_lower(lower, upper, s.factor), widen_upper(lower, upper, s.factor))
    }
}

/// The interval that round `k` of the bracket search probes.
pub open spec fn probed_interval<R: Scalar>(
    s: Settings<R>,
    side: Bounds<R>,
    low: R,
    upp: R,
    k: nat,
) -> Bounds<R> {
    let candidates = candidates_after(s, side, low, upp, k);
    Bounds {
        lower: confine(candidates.0, side, s.tolerance),
        upper: confine(candidates.1, side, s.tolerance),
    }
}

/// Round `k` of the bracket search finds a bracket of `v`.
pub open spec fn brackets_at<R: Scalar>(
    v: spec_fn(R) -> R,
    s: Settings<R>,
    side: Bounds<R>,
    low: R,
    upp: R,
    k: nat,
) -> bool {
    is_bracket(
        v,
        probed_interval(s, side, low, upp, k).lower,
        probed_interval(s, side, low, upp, k).upper,
    )
}

/// The candidates after the first round are the later candidates.
pub proof fn lemma_candidates_shift<R: Scalar>(
    s: Settings<R>,
    side: Bounds<R>,
    low: R,
    upp: R,
    k: nat,
)
    ensures
        ({
            let lower = confine(low, side, s.tolerance);
            let upper = confine(upp, side, s.tolerance);
            candidates_after(
                s,
                side,
                widen_lower(lower, upper, s.factor),
                widen_upper(lower, upper, s.factor),
                k,
            ) == candidates_after(s, side, low, upp, k + 1)
        }),
    decreases k,
{
    if k > 0 {
        lemma_candidates_shift(s, side, low, upp, (k - 1) as nat);
    }
    let before = candidates_after(s, side, low, upp, k);
    let lower = confine(before.0, side, s.tolerance);
    let upper = confine(before.1, side, s.tolerance);
    assert(candidates_after(s, side, low, upp, k + 1) == (
        widen_lower(lower, upper, s.factor),
        widen_upper(lower, upper, s.factor),
    ));
}

/// The bracket search reports the first of the intervals it probes that is a
/// bracket, if one of them is, and nothing if none is.
pub proof fn lemma_bounds_reports_first_bracket<R: Scalar>(
    v: spec_fn(R) -> R,
    s: Settings<R>,
    side: Bounds<R>,
    low: R,
    upp: R,
    n: nat,
)
    ensures
        match bounds_from(v, s, side, low, upp, n) {
            Some(b) => exists|k: nat|
                k < n && #[trigger] brackets_at(v, s, side, low, upp, k) && b == probed_interval(
                    s,
                    side,
                    low,
                    upp,
                    k,
                ) && forall|j: nat| j < k ==> !#[trigger] brackets_at(v, s, side, low, upp, j),
            None => forall|k: nat| k < n ==> !#[trigger] brackets_at(v, s, side, low, upp, k),
        },
    decreases n,
{
    if n > 0 {
        let lower = confine(low, side, s.tolerance);
        let upper = confine(upp, side, s.tolerance);
        if is_bracket(v, lower, upper) {
            assert(brackets_at(v, s, side, low, upp, 0));
        } else {
            let l = widen_lower(lower, upper, s.factor);
            let u = widen_upper(lower, upper, s.factor);
            lemma_bounds_reports_first_bracket(v, s, side, l, u, (n - 1) as nat);
            assert forall|j: nat|
                #![auto]
                probed_interval(s, side, l, u, j) == probed_interval(
                    s,
                    side,
                    low,
                    upp,
                    j + 1,
                ) && brackets_at(v, s, side, l, u, j) == brackets_at(v, s, side, low, upp, j + 1) by {
                lemma_candidates_shift(s, side, low, upp, j);
            }
            match bounds_from(v, s, side, l, u, (n - 1) as nat) {
                Some(b) => {
                    let k = choose|k: nat|
                        k < n - 1 && #[trigger] brackets_at(v, s, side, l, u, k) && b
                            == probed_interval(s, side, l, u, k) && forall|j: nat|
                            j < k ==> !#[trigger] brackets_at(v, s, side, l, u, j);
                    assert forall|j: nat| j < k + 1 implies !#[trigger] brackets_at(
                        v,
                        s,
                        side,
                        low,
                        upp,
                        j,
                    ) by {
                        if j > 0 {
                            assert(brackets_at(v, s, side, l, u, (j - 1) as nat) == brackets_at(
                                v,
                                s,
                                side,
                                low,
                                upp,
                                (j - 1) as nat + 1,
                            ));
                        }
                    }
                },
                None => {
                    assert forall|k: nat| k < n implies !#[trigger] brackets_at(
                        v,
                        s,
                        side,
                        low,
                        upp,
                        k,
                    ) by {
                        if k > 0 {
                            assert(brackets_at(v, s, side, l, u, (k - 1) as nat) == brackets_at(
                                v,
                                s,
                                side,
                                low,
                                upp,
                                (k - 1) as nat + 1,
                            ));
                        }
                    }
                },
            }
        }
    }
}

/// The bracket that the bisection holds after `k` rounds from the bracket
/// `(a, b)`, if none of the rounds ended the search.
pub open spec fn bracket_after<R: Scalar>(
    v: spec_fn(R) -> R,
    tolerance: R,
    a: R,
    b: R,
    k: nat,
) -> Option<(R, R)>
    decreases k,
{
    if k == 0 {
        Some((a, b))
    } else {
        match bracket_after(v, tolerance, a, b, (k - 1) as nat) {
            Some((lower, upper)) => match halve(v, tolerance, lower, upper) {
                Halving::Narrowed(l, u) => Some((l, u)),
                Halving::Done(_) => None,
            },
            None => None,
        }
    }
}

/// Round `k` of the bisection is reached and ends the search with `r`.
pub open spec fn ends_at<R: Scalar>(
    v: spec_fn(R) -> R,
    tolerance: R,
    a: R,
    b: R,
    k: nat,
    r: Option<R>,
) -> bool {
    bracket_after(v, tolerance, a, b, k) matches Some((lower, upper)) && halve(
        v,
        tolerance,
        lower,
        upper,
    ) == Halving::Done(r)
}

/// After `m` of its `n` rounds the bisection has ended with its result, or
/// holds a bracket from which the result is still to come.
pub proof fn lemma_bisection_trace<R: Scalar>(
    v: spec_fn(R) -> R,
    tolerance: R,
    a: R,
    b: R,
    n: nat,
    m: nat,
)
    requires
        m <= n,
    ensures
        ({
            let r = bisect_from(v, tolerance, a, b, n);
            ||| exists|k: nat| k < m && #[trigger] ends_at(v, tolerance, a, b, k, r)
            ||| bracket_after(v, tolerance, a, b, m) matches Some((lower, upper)) && r
                == bisect_from(v, tolerance, lower, upper, (n - m) as nat)
        }),
    decreases m,
{
    if m > 0 {
        let r = bisect_from(v, tolerance, a, b, n);
        lemma_bisection_trace(v, tolerance, a, b, n, (m - 1) as nat);
        if !exists|k: nat| k < m - 1 && #[trigger] ends_at(v, tolerance, a, b, k, r) {
            let (lower, upper) = bracket_after(v, tolerance, a, b, (m - 1) as nat)->0;
            if halve(v, tolerance, lower, upper) is Done {
                assert(ends_at(v, tolerance, a, b, (m - 1) as nat, r));
            }
        }
    }
}

/// The bisection reports what the first round that ends the search reports,
/// if a round within the cap ends it, and nothing if none does.
pub proof fn lemma_bisection_reports_first_ending<R: Scalar>(
    v: spec_fn(R) -> R,
    tolerance: R,
    a: R,
    b: R,
    n: nat,
)
    ensures
        ({
            let r = bisect_from(v, tolerance, a, b, n);
            ||| exists|k: nat| k < n && #[trigger] ends_at(v, tolerance, a, b, k, r)
            ||| r is None && bracket_after(v, tolerance, a, b, n) is Some
        }),
{
    lemma_bisection_trace(v, tolerance, a, b, n, n);
}

} // verus!
