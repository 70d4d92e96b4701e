//! The constant: a tie to a rail.

use crate::circuit::pin::Pin;
use crate::circuit::Circuit;
use crate::circuit::CircuitView;
use crate::device::single_pin;
use crate::device::AnyDevice;
use crate::device::Device;
use crate::device::DeviceContainer;
use crate::primitive::transistor::Transistor;
use crate::value::drive_value::DriveValue;
use vstd::prelude::*;

verus! {

/// A device with a single pin that always drives the same value: a tie to a rail, direct or
/// through a pull resistor.
pub struct Constant {
    output: Pin,
}

impl Constant {
    /// The pin of the constant.
    pub closed spec fn output(&self) -> Pin {
        self.output
    }

    /// The number of pins that a constant adds to a circuit.
    pub open spec fn pin_count() -> nat {
        1
    }

    /// The number of transistor records that a constant adds to a circuit: none.
    pub open spec fn transistor_count() -> nat {
        0
    }

    /// The pin of a constant created in a circuit that had `pins` pins.
    pub open spec fn output_pin(pins: nat) -> Pin {
        Pin { id: pins as usize }
    }

    /// Creates a constant that drives `Strong(value)`.
    pub fn new_strong(circuit: &mut Circuit, value: bool) -> (constant: Constant)
        ensures
            constant.output() == Constant::output_pin(old(circuit)@.pins.len()),
            final(circuit)@ == old(circuit)@.add_pin(DriveValue::Strong(value)),
            final(circuit)@.pins.len() == old(circuit)@.pins.len() + 1,
            final(circuit)@.transistors == old(circuit)@.transistors,
            old(circuit)@.wf() ==> final(circuit)@.wf(),
            old(circuit)@.quiet() ==> final(circuit)@.quiet(),
    {
        Constant { output: Pin::new(circuit, DriveValue::Strong(value)) }
    }

    /// Creates a constant that drives `Weak(value)`.
    pub fn new_weak(circuit: &mut Circuit, value: bool) -> (constant: Constant)
        ensures
            constant.output() == Constant::output_pin(old(circuit)@.pins.len()),
            final(circuit)@ == old(circuit)@.add_pin(DriveValue::Weak(value)),
            final(circuit)@.pins.len() == old(circuit)@.pins.len() + 1,
            final(circuit)@.transistors == old(circuit)@.transistors,
            old(circuit)@.wf() ==> final(circuit)@.wf(),
            old(circuit)@.quiet() ==> final(circuit)@.quiet(),
    {
        Constant { output: Pin::new(circuit, DriveValue::Weak(value)) }
    }

    /// The pin of the constant.
    pub fn get_output(&self) -> (pin: Pin)
        ensures
            pin == self.output(),
    {
        self.output
    }
}

impl Device for Constant {
    open spec fn transistors(&self) -> Seq<Transistor> {
        Seq::empty()
    }

    open spec fn wf(&self, circuit: CircuitView) -> bool {
        circuit.has_pin(self.output())
    }

    proof fn lemma_wf_grows(&self, before: CircuitView, after: CircuitView) {
    }

    open spec fn type_text(&self) -> Seq<char> {
        "Constant"@
    }

    fn device_type(&self) -> (name: String) {
        "Constant".to_string()
    }

    fn pins(&self, circuit: &Circuit) -> (pins: Vec<(String, DeviceContainer<Pin>)>)
        ensures
            pins.len() == 1,
            pins[0].0@ == "output"@,
            pins[0].1 == DeviceContainer::Single(self.output()),
    {
        let mut pins: Vec<(String, DeviceContainer<Pin>)> = Vec::new();
        pins.push(single_pin("output", self.output));
        pins
    }

    fn children(&self, circuit: &Circuit) -> (children: Vec<(String, DeviceContainer<AnyDevice>)>)
        ensures
            children.len() == 0,
    {
        Vec::new()
    }

    fn as_any(&self, circuit: &Circuit) -> (device: AnyDevice)
        ensures
            device.transistor is None,
            device.pins.len() == 1,
            device.pins[0].0@ == "output"@,
            device.pins[0].1 == DeviceContainer::Single(self.output()),
            device.children.len() == 0,
    {
        let device = AnyDevice::composite(
            self.device_type(),
            self.pins(circuit),
            self.children(circuit),
        );
        proof {
            device.lemma_composite_wf(circuit@);
        }
        device
    }
}

} // verus!
