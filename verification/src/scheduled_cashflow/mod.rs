//! Calculations on cash flows that come on given dates.

pub mod checked_cashflow_schedule;
pub mod xirr;
pub mod xnpv;
