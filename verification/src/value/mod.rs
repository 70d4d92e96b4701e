//! The value algebra: what a pin drives, what a wire resolves to, and the running tally that
//! turns the first into the second.

pub mod drive_value;
pub mod drive_value_accumulator;
pub mod logic_value;
