//! The scheduled calculations on calendar dates.
//!
//! A calendar date stands for its midnight in UTC. Which instant that is, is
//! the calendar's business and is asked of chrono; the calculations are those
//! on instants.

use crate::error::Error;
use crate::instant::Instant;
use crate::scalar::Scalar;
use crate::scheduled_cashflow::xirr::xirr_of;
use crate::scheduled_cashflow::xnpv::checked_xnpv_of;
use chrono::NaiveDate;
use vstd::prelude::*;

verus! {

/// A day of the proleptic Gregorian calendar. Not every triple names a day.
#[derive(Clone, Copy, Debug, PartialEq, Eq, Structural)]
pub struct Date {
    pub year: i32,
    /// From 1 for January.
    pub month: u32,
    /// From 1.
    pub day: u32,
}

/// The seconds from the epoch to the midnight in UTC at which the day begins
/// that `year`, `month` and `day` name, where they name one.
pub uninterp spec fn midnight_of(year: i32, month: u32, day: u32) -> Option<i64>;

/// The midnight at which a day begins, by `NaiveDate::from_ymd_opt`,
/// `NaiveDate::and_hms_opt`, `NaiveDateTime::and_utc` and `DateTime::timestamp`
/// of chrono. The first has no date for a triple that names no day, or a year
/// out of its range; the second is given the time 00:00:00, which every date
/// has. The result is a function of the triple alone; the calendar is not
/// spelled out here, the result is only given its name.
#[verifier::external_body]
fn midnight_utc(year: i32, month: u32, day: u32) -> (secs: Option<i64>)
    ensures
        secs == midnight_of(year, month, day),
{
    match NaiveDate::from_ymd_opt(year, month, day) {
        Some(date) => Some(date.and_hms_opt(0, 0, 0).unwrap().and_utc().timestamp()),
        None => None,
    }
}

impl Date {
    /// The instant at which the day begins, where the date names a day.
    pub open spec fn midnight(self) -> Option<Instant> {
        match midnight_of(self.year, self.month, self.day) {
            Some(secs) => Some(Instant { secs, nanos: 0 }),
            None => None,
        }
    }

    /// Computes [`Date::midnight`].
    pub fn to_instant(&self) -> (at: Option<Instant>)
        ensures
            at == self.midnight(),
    {
        match midnight_utc(self.year, self.month, self.day) {
            Some(secs) => Some(Instant { secs, nanos: 0 }),
            None => None,
        }
    }
}

/// Every one of the dates names a day.
pub open spec fn all_exist(dates: Seq<Date>) -> bool {
    forall|i: int| 0 <= i < dates.len() ==> (#[trigger] dates[i]).midnight() is Some
}

/// The midnights at which the dates begin.
pub open spec fn midnights(dates: Seq<Date>) -> Seq<Instant> {
    Seq::new(dates.len(), |i: int| dates[i].midnight()->0)
}

/// The midnights at which the dates begin, if every date names a day.
pub fn to_datetime(dates: &[Date]) -> (r: Option<Vec<Instant>>)
    ensures
        match r {
            Some(instants) => all_exist(dates@) && instants@ == midnights(dates@),
            None => !all_exist(dates@),
        },
{
    let mut instants: Vec<Instant> = Vec::new();
    let mut i: usize = 0;
    while i < dates.len()
        invariant
            i <= dates@.len(),
            all_exist(dates@.take(i as int)),
            instants@ == midnights(dates@.take(i as int)),
        decreases dates@.len() - i,
    {
        match dates[i].to_instant() {
            Some(at) => {
                instants.push(at);
            },
            None => {
                return None;
            },
        }
        i = i + 1;
    }
    assert(dates@.take(dates@.len() as int) =~= dates@);
    Some(instants)
}

/// The internal rate of return of `values` on `dates` from `guess`.
pub open spec fn dated_xirr_of<R: Scalar>(values: Seq<R>, dates: Seq<Date>, guess: Option<R>) -> Result<
    R,
    Error,
> {
    if all_exist(dates) {
        xirr_of(values, midnights(dates), guess)
    } else {
        Err(Error::InvalidDate)
    }
}

/// The net present value at `rate` of `values` on `dates`.
pub open spec fn dated_xnpv_of<R: Scalar>(rate: R, values: Seq<R>, dates: Seq<Date>) -> Result<
    R,
    Error,
> {
    if all_exist(dates) {
        checked_xnpv_of(rate, values, midnights(dates))
    } else {
        Err(Error::InvalidDate)
    }
}

/// Returns the internal rate of return for a schedule of cash flows that is
/// not necessarily periodic, the dates given as calendar dates.
pub fn xirr<R: Scalar>(values: &[R], dates: &[Date], guess: Option<R>) -> (r: Result<R, Error>)
    ensures
        r == dated_xirr_of(values@, dates@, guess),
{
    match to_datetime(dates) {
        Some(instants) => crate::scheduled_cashflow::xirr::xirr(values, instants.as_slice(), guess),
        None => Err(Error::InvalidDate),
    }
}

/// Returns the net present value for a schedule of cash flows that is not
/// necessarily periodic, the dates given as calendar dates.
pub fn xnpv<R: Scalar>(rate: R, values: &[R], dates: &[Date]) -> (r: Result<R, Error>)
    ensures
        r == dated_xnpv_of(rate, values@, dates@),
{
    match to_datetime(dates) {
        Some(instants) => crate::scheduled_cashflow::xnpv::xnpv(rate, values, instants.as_slice()),
        None => Err(Error::InvalidDate),
    }
}

} // verus!
