//! The root-finding engine and the helpers shared by the calculations.

pub mod bisection;
pub mod bounds;
pub mod exact;
pub mod find_bounds;
pub mod find_root;
pub mod laws;
pub mod newton;
pub mod runs;
pub mod settings;
pub mod utils;
pub mod valuation;
