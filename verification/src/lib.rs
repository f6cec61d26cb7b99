//! Time-value-of-money calculations: future and present value, net present
//! value, internal rate of return, and their date-scheduled variants.
//!
//! The heart of the crate is the root finder under [`common`], which the rates
//! of return are found with. Everything is generic over a
//! [`scalar::Scalar`]; [`decimal::Decimal`] is one.

pub mod common;
pub mod decimal;
pub mod error;
pub mod instant;
pub mod naive_date;
pub mod periodic_cashflow;
pub mod scalar;
pub mod scaled;
pub mod scheduled_cashflow;

pub use crate::periodic_cashflow::fv::fv;
pub use crate::periodic_cashflow::irr::irr;
pub use crate::periodic_cashflow::mirr::mirr;
pub use crate::periodic_cashflow::npv::npv;
pub use crate::periodic_cashflow::pv::pv;
pub use crate::scheduled_cashflow::xirr::xirr;
pub use crate::scheduled_cashflow::xnpv::xnpv;
