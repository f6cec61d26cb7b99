//! Future value of an investment at a constant rate.

use crate::scalar::{equals_zero, is_zero, one, zero, Scalar};
use vstd::prelude::*;

verus! {

/// The amount, or zero where none is given.
pub open spec fn or_zero<R: Scalar>(amount: Option<R>) -> R {
    match amount {
        Some(a) => a,
        None => zero(),
    }
}

/// One where payments fall at the beginning of each period, zero where they
/// fall at its end or nothing is said.
pub open spec fn due<R: Scalar>(pmt_at_begining: Option<bool>) -> R {
    if pmt_at_begining == Some(true) {
        one()
    } else {
        zero()
    }
}

/// The future value after `nper` periods at `rate` of the present value `pv`
/// and a payment `pmt` per period:
/// `-pv (1 + rate)^nper - pmt (1 + rate due) / rate ((1 + rate)^nper - 1)`,
/// and `-(pv + pmt nper)` at a rate of zero.
pub open spec fn fv_of<R: Scalar>(
    rate: R,
    nper: R,
    pmt: Option<R>,
    pv: Option<R>,
    pmt_at_begining: Option<bool>,
) -> R {
    let pmt = or_zero(pmt);
    let pv = or_zero(pv);
    let factor = one::<R>().spec_plus(rate).spec_powf(nper);
    if is_zero(rate) {
        pv.spec_plus(pmt.spec_times(nper)).spec_neg()
    } else {
        pv.spec_neg().spec_times(factor).spec_minus(
            pmt.spec_times(one::<R>().spec_plus(rate.spec_times(due(pmt_at_begining)))).spec_over(
                rate,
            ).spec_times(factor.spec_minus(one())),
        )
    }
}

/// Computes [`or_zero`].
pub fn unwrap_or_zero<R: Scalar>(amount: &Option<R>) -> (r: R)
    ensures
        r == or_zero(*amount),
{
    match amount {
        Some(a) => *a,
        None => R::from_int(0),
    }
}

/// Computes [`due`].
pub fn due_flag<R: Scalar>(pmt_at_begining: &Option<bool>) -> (r: R)
    ensures
        r == due::<R>(*pmt_at_begining),
{
    match pmt_at_begining {
        Some(true) => R::from_int(1),
        _ => R::from_int(0),
    }
}

/// Calculates the future value of an investment based on a constant interest
/// rate, with periodic constant payments, a single lump sum, or both.
pub fn fv<R: Scalar>(
    rate: &R,
    nper: &R,
    pmt: &Option<R>,
    pv: &Option<R>,
    pmt_at_begining: &Option<bool>,
) -> (r: R)
    ensures
        r == fv_of(*rate, *nper, *pmt, *pv, *pmt_at_begining),
{
    let pmt = unwrap_or_zero(pmt);
    let pv = unwrap_or_zero(pv);
    if equals_zero(*rate) {
        pv.plus(pmt.times(*nper)).neg()
    } else {
        let one = R::from_int(1);
        let factor = one.plus(*rate).powf(*nper);
        let pmt_at_begining = due_flag::<R>(pmt_at_begining);
        pv.neg().times(factor).minus(
            pmt.times(one.plus(rate.times(pmt_at_begining))).over(*rate).times(factor.minus(one)),
        )
    }
}

} // verus!
