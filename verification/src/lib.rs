//! A discrete-time, transistor-level digital-logic simulator.
//!
//! Everything is built from one active primitive, the CMOS transistor. Pins are joined by
//! wires, each wire resolves the drives of its pins into one logic value, and the network is
//! advanced in lock-step ticks until it stops changing.
//!
//! # The parts
//!
//! - [`value`]: what a pin drives ([`DriveValue`]), what a wire resolves to
//!   ([`LogicValue`]), and the running tally that turns the one into the other.
//! - [`circuit`]: the store of pins, wires and transistor records. [`Pin`] and the other
//!   handles are positions in a [`Circuit`]; every operation takes the circuit it works on.
//! - [`primitive`]: the [`Constant`], the [`TestPin`] and the [`Transistor`].
//! - [`device`]: the contract of a device, and [`AnyDevice`], the form in which a hierarchy
//!   of devices is walked.
//! - [`simulation`]: [`tick`], [`settle`] and [`render`].
//! - [`gate`], [`adder`], [`flip_flop`]: devices made of transistors.
//! - [`marks`]: the sorting of the fields of a device struct by the attributes on them.
//!
//! # What is proved
//!
//! A circuit has a mathematical value, its view, and every operation says exactly how it
//! changes that value. The invariant of the fabric, `wf`, is kept by every operation that a
//! device or the simulation performs: each pin sits on exactly one wire, each wire counts
//! exactly the drives of its pins, and what a pin reads is what the drives of the pins
//! connected to it resolve to. On top of that stand the laws of the simulation: a tick is
//! simultaneous, its outcome does not depend on the order in which a hierarchy is walked,
//! and a network at rest stays at rest.

pub mod adder;
pub mod circuit;
pub mod device;
pub mod flip_flop;
pub mod gate;
pub mod marks;
pub mod primitive;
pub mod simulation;
pub mod value;

pub use adder::full_adder::FullAdder;
pub use adder::half_adder::HalfAdder;
pub use adder::ripple_carry_adder::RippleCarryAdder;
pub use circuit::pin::Pin;
pub use circuit::Circuit;
pub use device::AnyDevice;
pub use device::Device;
pub use device::DeviceContainer;
pub use flip_flop::sr_latch::SrLatch;
pub use gate::and_gate::AndGate;
pub use gate::buffer_gate::BufferGate;
pub use gate::nand_gate::NandGate;
pub use gate::nor_gate::NorGate;
pub use gate::not_gate::NotGate;
pub use gate::or_gate::OrGate;
pub use gate::tri_state_buffer_gate::TriStateBufferGate;
pub use gate::xnor_gate::XnorGate;
pub use gate::xor_gate::XorGate;
pub use primitive::constant::Constant;
pub use primitive::test_pin::TestPin;
pub use primitive::transistor::Transistor;
pub use simulation::render::render;
pub use simulation::settle;
pub use simulation::tick;
pub use value::drive_value::drive_values;
pub use value::drive_value::DriveValue;
pub use value::logic_value::LogicValue;
