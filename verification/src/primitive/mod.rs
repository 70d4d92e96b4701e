//! The three primitive devices, which own pins and nothing else: the constant, the test pin
//! and the transistor.

pub mod constant;
pub mod test_pin;
pub mod transistor;
