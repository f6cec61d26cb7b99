//! Net present value of periodic cash flows.

use crate::common::utils::{powers, powers_of, sum, total};
use crate::scalar::{equals_zero, is_zero, one, zero, Scalar};
use vstd::prelude::*;

verus! {

/// The sum of the first `n` quotients `values[i] / divisors[i]`, added from
/// the left onto zero.
pub open spec fn quotient_sum<R: Scalar>(values: Seq<R>, divisors: Seq<R>, n: nat) -> R
    decreases n,
{
    if n == 0 {
        zero()
    } else {
        quotient_sum(values, divisors, (n - 1) as nat).spec_plus(
            values[n - 1].spec_over(divisors[n - 1]),
        )
    }
}

/// The net present value of `values` at `rate`: each value discounted by one
/// more power of `1 + rate` than the one before, the first by one power. At a
/// rate of zero, the plain sum.
pub open spec fn npv_of<R: Scalar>(rate: R, values: Seq<R>) -> R {
    if is_zero(rate) {
        total(values)
    } else {
        quotient_sum(
            values,
            powers_of(one::<R>().spec_plus(rate), values.len(), false),
            values.len(),
        )
    }
}

/// The net present value as a function of the rate.
pub open spec fn npv_at<R: Scalar>(values: Seq<R>) -> spec_fn(R) -> R {
    |rate: R| npv_of(rate, values)
}

/// Calculates the net present value of an investment from a discount rate and
/// a series of future payments (negative values) and income (positive
/// values).
pub fn npv<R: Scalar>(rate: R, values: &[R]) -> (r: R)
    ensures
        r == npv_of(rate, values@),
{
    if equals_zero(rate) {
        return sum(values);
    }
    let pows = powers(R::from_int(1).plus(rate), values.len(), false);
    let mut acc = R::from_int(0);
    let mut i: usize = 0;
    while i < values.len()
        invariant
            i <= values@.len(),
            pows@.len() >= values@.len(),
            acc == quotient_sum(values@, pows@, i as nat),
        decreases values@.len() - i,
    {
        acc = acc.plus(values[i].over(pows[i]));
        i = i + 1;
    }
    acc
}

} // verus!
