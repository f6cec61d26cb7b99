//! Net present value of cash flows that come on given dates.

use crate::common::utils::{sum, total};
use crate::error::Error;
use crate::instant::{days_between, days_to, Instant};
use crate::scalar::{equals_zero, is_zero, one, zero, Scalar};
use crate::scheduled_cashflow::checked_cashflow_schedule::{
    schedule_fault,
    CheckedCashflowSchedule,
};
use vstd::prelude::*;

verus! {

/// The years from `d0` to `d`: the whole days between them over 365.
pub open spec fn years_between<R: Scalar>(d0: Instant, d: Instant) -> R {
    R::spec_from_int(days_between(d0, d) as i64).spec_over(R::spec_from_int(365))
}

/// The sum of the first `n` values, each discounted at `rate` over the years
/// from the first date to its own, added from the left onto zero.
pub open spec fn dated_sum<R: Scalar>(rate: R, values: Seq<R>, dates: Seq<Instant>, n: nat) -> R
    decreases n,
{
    if n == 0 {
        zero()
    } else {
        dated_sum(rate, values, dates, (n - 1) as nat).spec_plus(
            values[n - 1].spec_over(
                one::<R>().spec_plus(rate).spec_powf(years_between(dates[0], dates[n - 1])),
            ),
        )
    }
}

/// The net present value at `rate` of `values` that fall on `dates`. Nothing
/// for no values; the plain sum at a rate of zero.
pub open spec fn xnpv_of<R: Scalar>(rate: R, values: Seq<R>, dates: Seq<Instant>) -> R {
    if values.len() == 0 {
        zero()
    } else if is_zero(rate) {
        total(values)
    } else {
        dated_sum(rate, values, dates, values.len())
    }
}

/// The net present value of a schedule as a function of the rate.
pub open spec fn xnpv_at<R: Scalar>(values: Seq<R>, dates: Seq<Instant>) -> spec_fn(R) -> R {
    |rate: R| xnpv_of(rate, values, dates)
}

/// The net present value at `rate` of a schedule that passed its checks.
pub fn calculate_xnpv<R: Scalar>(rate: R, cf: &CheckedCashflowSchedule<R>) -> (r: R)
    requires
        cf.is_checked(),
    ensures
        r == xnpv_of(rate, cf.values@, cf.dates@),
{
    if cf.values.len() == 0 {
        return R::from_int(0);
    }
    if equals_zero(rate) {
        return sum(cf.values);
    }
    let base = R::from_int(1).plus(rate);
    let d0 = cf.dates[0];
    let mut acc = R::from_int(0);
    let mut i: usize = 0;
    while i < cf.values.len()
        invariant
            i <= cf.values@.len(),
            cf.values@.len() == cf.dates@.len(),
            d0 == cf.dates@[0],
            base == one::<R>().spec_plus(rate),
            acc == dated_sum(rate, cf.values@, cf.dates@, i as nat),
        decreases cf.values@.len() - i,
    {
        let years = R::from_int(days_to(d0, cf.dates[i])).over(R::from_int(365));
        acc = acc.plus(cf.values[i].over(base.powf(years)));
        i = i + 1;
    }
    acc
}

/// The net present value of `values` on `dates` at `rate`, or what is wrong
/// with the schedule.
pub open spec fn checked_xnpv_of<R: Scalar>(rate: R, values: Seq<R>, dates: Seq<Instant>) -> Result<
    R,
    Error,
> {
    match schedule_fault(values.len(), dates) {
        Some(e) => Err(e),
        None => Ok(xnpv_of(rate, values, dates)),
    }
}

/// Returns the net present value for a schedule of cash flows that is not
/// necessarily periodic.
pub fn xnpv<R: Scalar>(rate: R, values: &[R], dates: &[Instant]) -> (r: Result<R, Error>)
    ensures
        r == checked_xnpv_of(rate, values@, dates@),
{
    match CheckedCashflowSchedule::new(values, dates) {
        Err(m) => Err(m),
        Ok(cf) => Ok(calculate_xnpv(rate, &cf)),
    }
}

} // verus!
