//! What the calculations report when they cannot answer.

use vstd::prelude::*;

verus! {

#[derive(Clone, Copy, Debug, PartialEq, Eq, Structural)]
pub enum Error {
    /// A series of cash flows needs at least two values.
    TooFewValues,
    /// A series of cash flows needs a positive and a negative value.
    OneSided,
    /// A schedule has as many dates as values.
    LengthMismatch,
    /// No date of a schedule comes before its first.
    FirstDateNotEarliest,
    /// Every calendar date of a schedule names a day.
    InvalidDate,
    /// The root finder located no rate.
    NoRoot,
}

impl Error {
    pub fn message(&self) -> (text: &'static str)
        ensures
            text@ == match *self {
                Error::TooFewValues => "Values must hold at least two cash flows"@,
                Error::OneSided => "Values must hold a positive and a negative cash flow"@,
                Error::LengthMismatch => "Values and dates length must match"@,
                Error::FirstDateNotEarliest => "First date must be the earliest"@,
                Error::InvalidDate => "Dates must be days of the calendar"@,
                Error::NoRoot => "could't find irr for the values provided"@,
            },
    {
        match self {
            Error::TooFewValues => "Values must hold at least two cash flows",
            Error::OneSided => "Values must hold a positive and a negative cash flow",
            Error::LengthMismatch => "Values and dates length must match",
            Error::FirstDateNotEarliest => "First date must be the earliest",
            Error::InvalidDate => "Dates must be days of the calendar",
            Error::NoRoot => "could't find irr for the values provided",
        }
    }
}

} // verus!
