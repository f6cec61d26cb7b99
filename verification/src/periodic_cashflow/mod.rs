//! Calculations on cash flows that come at regular intervals.

pub mod fv;
pub mod irr;
pub mod mirr;
pub mod npv;
pub mod pv;
