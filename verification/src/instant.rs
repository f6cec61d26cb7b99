//! Points in time, as plain numbers.
//!
//! A schedule is read in two ways only: which of two dates comes first, and
//! how many whole days lie between them. Both are arithmetic on the count of
//! seconds since an epoch and the nanoseconds into the second.

use vstd::prelude::*;

verus! {

#[derive(Clone, Copy, Debug, PartialEq, Eq, Structural)]
pub struct Instant {
    /// Whole seconds since the epoch; negative before it.
    pub secs: i64,
    /// Nanoseconds into the second.
    pub nanos: u32,
}

impl Instant {
    /// The nanoseconds from the epoch to the instant.
    pub open spec fn nanoseconds(self) -> int {
        self.secs * 1_000_000_000 + self.nanos
    }

    /// The instant comes strictly before `other`.
    pub open spec fn is_before(self, other: Instant) -> bool {
        self.nanoseconds() < other.nanoseconds()
    }

    /// Decides [`Instant::is_before`].
    pub fn before(&self, other: &Instant) -> (r: bool)
        ensures
            r == self.is_before(*other),
    {
        let a = self.secs as i128 * 1_000_000_000 + self.nanos as i128;
        let b = other.secs as i128 * 1_000_000_000 + other.nanos as i128;
        a < b
    }
}

/// The whole days from `d0` to `d1`, a day being 86 400 seconds: negative
/// where `d1` comes first, and rounded toward zero.
pub open spec fn days_between(d0: Instant, d1: Instant) -> int {
    let elapsed = d1.nanoseconds() - d0.nanoseconds();
    if elapsed < 0 {
        -((-elapsed) / 86_400_000_000_000)
    } else {
        elapsed / 86_400_000_000_000
    }
}

/// Counts the whole days from `d0` to `d1`.
pub fn days_to(d0: Instant, d1: Instant) -> (days: i64)
    ensures
        days == days_between(d0, d1),
{
    let seconds: i128 = d1.secs as i128 - d0.secs as i128;
    let diff: i128 = seconds * 1_000_000_000 + (d1.nanos as i128 - d0.nanos as i128);
    let m: u128 = if diff < 0 {
        (-diff) as u128
    } else {
        diff as u128
    };
    let q: u128 = m / 86_400_000_000_000;
    if diff < 0 {
        -(q as i64)
    } else {
        q as i64
    }
}

} // verus!
