//! Internal rate of return of cash flows that come on given dates.

use crate::common::find_root::{find_root, root, same_sign, starting_point};
use crate::common::laws::lemma_reported_root;
use crate::common::newton::newton_root;
use crate::common::settings::Settings;
use crate::common::valuation::computes;
use crate::error::Error;
use crate::instant::Instant;
use crate::periodic_cashflow::irr::{cashflow_fault, validate_cashflow_values};
use crate::scalar::{within, Scalar};
use crate::scheduled_cashflow::checked_cashflow_schedule::{
    schedule_fault,
    CheckedCashflowSchedule,
};
use crate::scheduled_cashflow::xnpv::{calculate_xnpv, xnpv_at, xnpv_of};
use vstd::prelude::*;

verus! {

/// The internal rate of return of `values` on `dates` from `guess`: what is
/// wrong with the schedule or with the values, or a root of the net present
/// value under the standard settings.
pub open spec fn xirr_of<R: Scalar>(values: Seq<R>, dates: Seq<Instant>, guess: Option<R>) -> Result<
    R,
    Error,
> {
    match schedule_fault(values.len(), dates) {
        Some(e) => Err(e),
        None => match cashflow_fault(values) {
            Some(e) => Err(e),
            None => match root(xnpv_at(values, dates), Settings::standard(), guess) {
                Some(rate) => Ok(rate),
                None => Err(Error::NoRoot),
            },
        },
    }
}

/// Returns the internal rate of return for a schedule of cash flows that is
/// not necessarily periodic.
pub fn xirr<R: Scalar>(values: &[R], dates: &[Instant], guess: Option<R>) -> (r: Result<R, Error>)
    ensures
        r == xirr_of(values@, dates@, guess),
{
    let cf = match CheckedCashflowSchedule::new(values, dates) {
        Err(m) => {
            return Err(m);
        },
        Ok(cf) => cf,
    };
    match validate_cashflow_values(values) {
        Err(e) => {
            return Err(e);
        },
        Ok(()) => {},
    }
    let f_xnpv = |x: R| -> (y: R)
        ensures
            y == xnpv_of(x, values@, dates@),
        { calculate_xnpv(x, &cf) };
    let settings = Settings::new();
    assert(computes(f_xnpv, xnpv_at(values@, dates@)));
    match find_root(guess, f_xnpv, &settings) {
        Some(ans) => Ok(ans),
        None => Err(Error::NoRoot),
    }
}

/// A rate of return that is reported is a finite result of the Newton
/// solver with the sign of the guess, or brings the net present value of the
/// schedule to within the tolerance of zero.
pub proof fn lemma_xirr_is_a_root<R: Scalar>(
    values: Seq<R>,
    dates: Seq<Instant>,
    guess: Option<R>,
    rate: R,
)
    requires
        xirr_of(values, dates, guess) == Ok::<R, Error>(rate),
    ensures
        ({
            let x = starting_point(guess);
            let v = xnpv_at(values, dates);
            ||| newton_root(v, Settings::standard(), x) == Some(rate) && same_sign(rate, x)
                && rate.spec_is_finite()
            ||| within(xnpv_of(rate, values, dates), Settings::<R>::standard().tolerance)
        }),
{
    lemma_reported_root(xnpv_at(values, dates), Settings::standard(), guess, rate);
}

} // verus!
