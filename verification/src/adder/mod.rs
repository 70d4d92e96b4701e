//! Adders made of logic gates.

pub mod full_adder;
pub mod half_adder;
pub mod ripple_carry_adder;
