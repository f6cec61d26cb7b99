//! Internal rate of return of periodic cash flows.

use crate::common::find_root::{find_root, root, same_sign, starting_point};
use crate::common::laws::lemma_reported_root;
use crate::common::newton::newton_root;
use crate::common::settings::Settings;
use crate::common::utils::{trim_zeros, trimmed};
use crate::common::valuation::computes;
use crate::error::Error;
use crate::periodic_cashflow::npv::{npv, npv_at, npv_of};
use crate::scalar::{is_positive, ratio, ratio_of, within, zero, Scalar};
use vstd::prelude::*;

verus! {

/// Some value is strictly positive.
pub open spec fn has_positive<R: Scalar>(values: Seq<R>) -> bool {
    exists|i: int| 0 <= i < values.len() && is_positive(#[trigger] values[i])
}

/// Some value is strictly negative.
pub open spec fn has_negative<R: Scalar>(values: Seq<R>) -> bool {
    exists|i: int| 0 <= i < values.len() && (#[trigger] values[i]).spec_below(zero())
}

/// What is wrong with `values` as a series of cash flows, if anything: a rate
/// of return needs at least two of them, and money going both ways.
pub open spec fn cashflow_fault<R: Scalar>(values: Seq<R>) -> Option<Error> {
    if values.len() < 2 {
        Some(Error::TooFewValues)
    } else if !has_positive(values) || !has_negative(values) {
        Some(Error::OneSided)
    } else {
        None
    }
}

/// The settings of the root finder for a rate of return. The root wanted is
/// the one closest to the guess, so the bracket search widens slowly: by
/// `1.1` widths a round.
pub open spec fn irr_settings<R: Scalar>() -> Settings<R> {
    Settings::with_factor(ratio::<R>(11, 10))
}

/// The internal rate of return of `values` from `guess`: a root of the net
/// present value of the trimmed values.
pub open spec fn irr_of<R: Scalar>(values: Seq<R>, guess: Option<R>) -> Result<R, Error> {
    if values.len() == 0 {
        Err(Error::TooFewValues)
    } else {
        match cashflow_fault(trimmed(values)) {
            Some(e) => Err(e),
            None => match root(npv_at(trimmed(values)), irr_settings(), guess) {
                Some(rate) => Ok(rate),
                None => Err(Error::NoRoot),
            },
        }
    }
}

/// Checks that `values` can have a rate of return.
pub fn validate_cashflow_values<R: Scalar>(values: &[R]) -> (r: Result<(), Error>)
    ensures
        r == match cashflow_fault(values@) {
            Some(e) => Err::<(), Error>(e),
            None => Ok(()),
        },
{
    if values.len() < 2 {
        return Err(Error::TooFewValues);
    }
    let origin = R::from_int(0);
    let mut positive = false;
    let mut negative = false;
    let mut i: usize = 0;
    while i < values.len()
        invariant
            i <= values@.len(),
            origin == zero::<R>(),
            positive == has_positive(values@.take(i as int)),
            negative == has_negative(values@.take(i as int)),
        decreases values@.len() - i,
    {
        let v = values[i];
        assert(values@.take(i + 1)[i as int] == v);
        if origin.below(v) {
            positive = true;
        }
        if v.below(origin) {
            negative = true;
        }
        i = i + 1;
    }
    assert(values@.take(values@.len() as int) =~= values@);
    if positive && negative {
        Ok(())
    } else {
        Err(Error::OneSided)
    }
}

/// Calculates the internal rate of return for a series of cash flows that
/// come at regular intervals.
pub fn irr<R: Scalar>(values: &[R], guess: Option<R>) -> (r: Result<R, Error>)
    ensures
        r == irr_of(values@, guess),
{
    if values.len() == 0 {
        return Err(Error::TooFewValues);
    }
    let values = trim_zeros(values);
    match validate_cashflow_values(values) {
        Err(e) => {
            return Err(e);
        },
        Ok(()) => {},
    }
    let f_npv = |x: R| -> (y: R)
        ensures
            y == npv_of(x, values@),
        { npv(x, values) };
    let settings = Settings::new_with_factor(ratio_of::<R>(11, 10));
    assert(computes(f_npv, npv_at(values@)));
    match find_root(guess, f_npv, &settings) {
        Some(ans) => Ok(ans),
        None => Err(Error::NoRoot),
    }
}

/// A rate of return that is reported is a finite result of the Newton
/// solver with the sign of the guess, or brings the net present value of the
/// trimmed values to within the tolerance of zero.
pub proof fn lemma_irr_is_a_root<R: Scalar>(values: Seq<R>, guess: Option<R>, rate: R)
    requires
        irr_of(values, guess) == Ok::<R, Error>(rate),
    ensures
        ({
            let x = starting_point(guess);
            let v = npv_at(trimmed(values));
            ||| newton_root(v, irr_settings(), x) == Some(rate) && same_sign(rate, x)
                && rate.spec_is_finite()
            ||| within(npv_of(rate, trimmed(values)), irr_settings::<R>().tolerance)
        }),
{
    lemma_reported_root(npv_at(trimmed(values)), irr_settings(), guess, rate);
}

} // verus!
