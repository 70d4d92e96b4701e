//! The test pin: a pin that is driven from outside.

use crate::circuit::pin::Pin;
use crate::circuit::Circuit;
use crate::circuit::CircuitView;
use crate::device::single_pin;
use crate::device::AnyDevice;
use crate::device::Device;
use crate::device::DeviceContainer;
use crate::primitive::transistor::Transistor;
use crate::value::drive_value::DriveValue;
use vstd::prelude::*;

verus! {

/// A device with a single pin whose drive is set from outside, for stimulating a network.
pub struct TestPin {
    output: Pin,
}

impl TestPin {
    /// The pin of the test pin.
    pub closed spec fn output(&self) -> Pin {
        self.output
    }

    /// Creates a test pin that drives `initial_drive`.
    pub fn new(circuit: &mut Circuit, initial_drive: DriveValue) -> (test_pin: TestPin)
        ensures
            test_pin.output().id == old(circuit)@.pins.len(),
            final(circuit)@ == old(circuit)@.add_pin(initial_drive),
            final(circuit)@.pins.len() == old(circuit)@.pins.len() + 1,
            final(circuit)@.transistors == old(circuit)@.transistors,
            old(circuit)@.wf() ==> final(circuit)@.wf(),
            old(circuit)@.quiet() ==> final(circuit)@.quiet(),
    {
        TestPin { output: Pin::new(circuit, initial_drive) }
    }

    /// Makes the pin drive `new_drive` at once, without waiting for a tick of the network.
    pub fn set_drive(&self, circuit: &mut Circuit, new_drive: DriveValue)
        requires
            old(circuit)@.wf(),
            old(circuit)@.has_pin(self.output()),
            old(circuit)@.pending(self.output()) is None,
        ensures
            final(circuit)@ == old(circuit)@.set_drive(self.output(), new_drive).tick_pin(
                self.output(),
            ),
            final(circuit)@.drive(self.output()) == new_drive,
            final(circuit)@.pending(self.output()) is None,
            final(circuit)@.wf(),
            final(circuit)@.pins.len() == old(circuit)@.pins.len(),
            final(circuit)@.transistors == old(circuit)@.transistors,
            old(circuit)@.quiet() ==> final(circuit)@.quiet(),
    {
        self.output.set_drive(circuit, new_drive);
        self.output.tick(circuit);
    }

    /// The pin of the test pin.
    pub fn get_output(&self) -> (pin: Pin)
        ensures
            pin == self.output(),
    {
        self.output
    }
}

impl Device for TestPin {
    open spec fn transistors(&self) -> Seq<Transistor> {
        Seq::empty()
    }

    open spec fn wf(&self, circuit: CircuitView) -> bool {
        circuit.has_pin(self.output())
    }

    proof fn lemma_wf_grows(&self, before: CircuitView, after: CircuitView) {
    }

    open spec fn type_text(&self) -> Seq<char> {
        "TestPin"@
    }

    fn device_type(&self) -> (name: String) {
        "TestPin".to_string()
    }

    fn pins(&self, circuit: &Circuit) -> (pins: Vec<(String, DeviceContainer<Pin>)>)
        ensures
            pins.len() == 1,
            pins[0].0@ == "output"@,
            pins[0].1 == DeviceContainer::Single(self.output()),
    {
        let mut pins: Vec<(String, DeviceContainer<Pin>)> = Vec::new();
        pins.push(single_pin("output", self.output));
        pins
    }

    fn children(&self, circuit: &Circuit) -> (children: Vec<(String, DeviceContainer<AnyDevice>)>)
        ensures
            children.len() == 0,
    {
        Vec::new()
    }

    fn as_any(&self, circuit: &Circuit) -> (device: AnyDevice)
        ensures
            device.transistor is None,
            device.pins.len() == 1,
            device.pins[0].0@ == "output"@,
            device.pins[0].1 == DeviceContainer::Single(self.output()),
            device.children.len() == 0,
    {
        let device = AnyDevice::composite(
            self.device_type(),
            self.pins(circuit),
            self.children(circuit),
        );
        proof {
            device.lemma_composite_wf(circuit@);
        }
        device
    }
}

} // verus!
