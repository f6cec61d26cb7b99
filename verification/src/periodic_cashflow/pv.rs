//! Present value of a loan or an investment at a constant rate.

use crate::periodic_cashflow::fv::{due, due_flag, or_zero, unwrap_or_zero};
use crate::scalar::{equals_zero, is_zero, one, Scalar};
use vstd::prelude::*;

verus! {

/// The present value of the future value `fv` and a payment `pmt` per period
/// over `nper` periods at `rate`:
/// `-(fv + pmt (1 + rate due) ((1 + rate)^nper - 1) / rate) / (1 + rate)^nper`,
/// and `-(fv + pmt nper)` at a rate of zero.
pub open spec fn pv_of<R: Scalar>(
    rate: R,
    nper: R,
    pmt: Option<R>,
    fv: Option<R>,
    pmt_at_begining: Option<bool>,
) -> R {
    let pmt = or_zero(pmt);
    let fv = or_zero(fv);
    let temp = one::<R>().spec_plus(rate).spec_powf(nper);
    let factor = one::<R>().spec_plus(rate.spec_times(due(pmt_at_begining))).spec_times(
        temp.spec_minus(one()),
    ).spec_over(rate);
    if is_zero(rate) {
        fv.spec_plus(pmt.spec_times(nper)).spec_neg()
    } else {
        fv.spec_plus(pmt.spec_times(factor)).spec_neg().spec_over(temp)
    }
}

/// Calculates the present value of a loan or an investment, based on a
/// constant interest rate, with periodic constant payments, a future value
/// that is the goal, or both.
pub fn pv<R: Scalar>(
    rate: &R,
    nper: &R,
    pmt: &Option<R>,
    fv: &Option<R>,
    pmt_at_begining: &Option<bool>,
) -> (r: R)
    ensures
        r == pv_of(*rate, *nper, *pmt, *fv, *pmt_at_begining),
{
    let pmt = unwrap_or_zero(pmt);
    let fv = unwrap_or_zero(fv);
    if equals_zero(*rate) {
        fv.plus(pmt.times(*nper)).neg()
    } else {
        let one = R::from_int(1);
        let pmt_at_begining = due_flag::<R>(pmt_at_begining);
        let temp = one.plus(*rate).powf(*nper);
        let factor = one.plus(rate.times(pmt_at_begining)).times(temp.minus(one)).over(*rate);
        fv.plus(pmt.times(factor)).neg().over(temp)
    }
}

} // verus!
