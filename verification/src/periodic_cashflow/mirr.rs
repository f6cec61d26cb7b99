//! Modified internal rate of return of periodic cash flows.

use crate::common::utils::{
    end_trimmed,
    lemma_past_last_nonzero_in_range,
    powers,
    powers_of,
    trim_end_zeros,
};
use crate::scalar::{is_positive, one, zero, Scalar};
use vstd::prelude::*;

verus! {

/// The present value of the negative ones among the first `n` values, the
/// `i`th discounted by `pows[i]`, added from the left onto zero.
pub open spec fn negative_pv<R: Scalar>(values: Seq<R>, pows: Seq<R>, n: nat) -> R
    decreases n,
{
    if n == 0 {
        zero()
    } else if values[n - 1].spec_below(zero()) {
        negative_pv(values, pows, (n - 1) as nat).spec_plus(values[n - 1].spec_over(pows[n - 1]))
    } else {
        negative_pv(values, pows, (n - 1) as nat)
    }
}

/// The future value of the positive ones among the last `n` values, the last
/// grown by `pows[0]`, the one before by `pows[1]` and so on, added onto zero
/// from the last value backward.
pub open spec fn positive_fv<R: Scalar>(values: Seq<R>, pows: Seq<R>, n: nat) -> R
    decreases n,
{
    if n == 0 {
        zero()
    } else if is_positive(values[values.len() - n]) {
        positive_fv(values, pows, (n - 1) as nat).spec_plus(
            values[values.len() - n].spec_times(pows[n - 1]),
        )
    } else {
        positive_fv(values, pows, (n - 1) as nat)
    }
}

/// The modified internal rate of return of `values`: with the trailing zeros
/// dropped and `n` values left,
/// `(future value of the income / -present value of the payments)^(1 / (n - 1)) - 1`,
/// the payments discounted at `finance_rate` and the income grown at
/// `reinvest_rate`.
pub open spec fn mirr_of<R: Scalar>(values: Seq<R>, finance_rate: R, reinvest_rate: R) -> R {
    let values = end_trimmed(values);
    let n = values.len();
    let negative_cf_pv = negative_pv(
        values,
        powers_of(one::<R>().spec_plus(finance_rate), n, true),
        n,
    );
    let positive_cf_fv = positive_fv(
        values,
        powers_of(one::<R>().spec_plus(reinvest_rate), n, true),
        n,
    );
    positive_cf_fv.spec_over(negative_cf_pv.spec_neg()).spec_powf(
        one::<R>().spec_over(R::spec_from_int((n - 1) as i64)),
    ).spec_minus(one())
}

/// Returns the modified internal rate of return for a series of periodic cash
/// flows, which has a cost for the investment and an interest on the cash
/// that is reinvested. Some value must be other than zero.
pub fn mirr<R: Scalar>(values: &[R], finance_rate: R, reinvest_rate: R) -> (r: R)
    requires
        end_trimmed(values@).len() > 0,
        values@.len() < usize::MAX,
        values@.len() <= i64::MAX,
    ensures
        r == mirr_of(values@, finance_rate, reinvest_rate),
{
    proof {
        lemma_past_last_nonzero_in_range(values@, values@.len() as int);
    }
    let values = trim_end_zeros(values);
    let n = values.len();
    let one = R::from_int(1);
    let origin = R::from_int(0);
    let finance = powers(one.plus(finance_rate), n, true);
    let mut negative_cf_pv = R::from_int(0);
    let mut i: usize = 0;
    while i < n
        invariant
            i <= n,
            n == values@.len(),
            finance@.len() == n + 1,
            origin == zero::<R>(),
            negative_cf_pv == negative_pv(values@, finance@, i as nat),
        decreases n - i,
    {
        if values[i].below(origin) {
            negative_cf_pv = negative_cf_pv.plus(values[i].over(finance[i]));
        }
        i = i + 1;
    }
    let reinvest = powers(one.plus(reinvest_rate), n, true);
    let mut positive_cf_fv = R::from_int(0);
    let mut k: usize = 0;
    while k < n
        invariant
            k <= n,
            n == values@.len(),
            reinvest@.len() == n + 1,
            origin == zero::<R>(),
            positive_cf_fv == positive_fv(values@, reinvest@, k as nat),
        decreases n - k,
    {
        let v = values[n - 1 - k];
        if origin.below(v) {
            positive_cf_fv = positive_cf_fv.plus(v.times(reinvest[k]));
        }
        k = k + 1;
    }
    positive_cf_fv.over(negative_cf_pv.neg()).powf(one.over(R::from_int((n - 1) as i64))).minus(one)
}

} // verus!
