//! Devices that store a bit.

pub mod sr_latch;
