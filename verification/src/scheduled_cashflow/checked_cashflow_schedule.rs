//! A schedule of cash flows that has passed its checks.

use crate::error::Error;
use crate::instant::Instant;
use vstd::prelude::*;

verus! {

pub struct CheckedCashflowSchedule<'a, R> {
    pub values: &'a [R],
    pub dates: &'a [Instant],
}

/// Some date comes before the first.
pub open spec fn has_earlier_than_first(dates: Seq<Instant>) -> bool {
    exists|i: int| 0 <= i < dates.len() && (#[trigger] dates[i]).is_before(dates[0])
}

/// What is wrong with `dates` as the dates of `count` cash flows, if anything.
pub open spec fn schedule_fault(count: nat, dates: Seq<Instant>) -> Option<Error> {
    if count != dates.len() {
        Some(Error::LengthMismatch)
    } else if has_earlier_than_first(dates) {
        Some(Error::FirstDateNotEarliest)
    } else {
        None
    }
}

impl<'a, R> CheckedCashflowSchedule<'a, R> {
    /// There is a date for each value, and none before the first.
    pub open spec fn is_checked(&self) -> bool {
        schedule_fault(self.values@.len(), self.dates@) is None
    }

    /// Checks `dates` against `values` and binds them into a schedule. A
    /// schedule of no values and no dates passes: it has no date out of
    /// place.
    pub fn new(values: &'a [R], dates: &'a [Instant]) -> (r: Result<
        CheckedCashflowSchedule<'a, R>,
        Error,
    >)
        ensures
            match schedule_fault(values@.len(), dates@) {
                Some(e) => r == Err::<CheckedCashflowSchedule<'a, R>, Error>(e),
                None => r matches Ok(cf) && cf.values@ == values@ && cf.dates@ == dates@
                    && cf.is_checked(),
            },
    {
        if values.len() != dates.len() {
            return Err(Error::LengthMismatch);
        }
        if dates.len() == 0 {
            return Ok(CheckedCashflowSchedule { values, dates });
        }
        let d0 = dates[0];
        let mut i: usize = 0;
        while i < dates.len()
            invariant
                i <= dates@.len(),
                dates@.len() > 0,
                values@.len() == dates@.len(),
                d0 == dates@[0],
                !has_earlier_than_first(dates@.take(i as int)),
            decreases dates@.len() - i,
        {
            if dates[i].before(&d0) {
                return Err(Error::FirstDateNotEarliest);
            }
            i = i + 1;
        }
        assert(dates@.take(dates@.len() as int) =~= dates@);
        Ok(CheckedCashflowSchedule { values, dates })
    }
}

} // verus!
