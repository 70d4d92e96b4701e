//! Logic gates made of transistors.

pub mod and_gate;
pub mod buffer_gate;
pub mod inverter;
pub mod nand_gate;
pub mod nor_gate;
pub mod not_gate;
pub mod or_gate;
pub mod tri_state_buffer_gate;
pub mod xnor_gate;
pub mod xor_gate;
