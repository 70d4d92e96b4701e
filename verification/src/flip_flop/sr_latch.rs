//! The SR latch.

use crate::circuit::Circuit;
use crate::circuit::CircuitView;
use crate::circuit::pin::Pin;
use crate::device::AnyDevice;
use crate::device::Device;
use crate::device::DeviceContainer;
use crate::device::add_child;
use crate::device::children_transistors;
use crate::device::lemma_transistor_range_concat;
use crate::device::names_child;
use crate::device::single_child;
use crate::device::single_pin;
use crate::device::transistor_range;
use crate::gate::nor_gate::NorGate;
use crate::primitive::transistor::Transistor;
use vstd::prelude::*;

verus! {

/// The smallest structure that stores information: an SR latch remembers whether it was set or
/// reset last.
pub struct SrLatch {
    nor_gate_1: NorGate,
    nor_gate_2: NorGate,
    set: Pin,
    reset: Pin,
    output: Pin,
    output_inverted: Pin,
}

impl SrLatch {
    /// The pin that sets the latch.
    pub closed spec fn set(&self) -> Pin {
        self.set
    }

    /// The pin that resets the latch.
    pub closed spec fn reset(&self) -> Pin {
        self.reset
    }

    /// The pin that shows what is stored.
    pub closed spec fn output(&self) -> Pin {
        self.output
    }

    /// The pin that shows the opposite of what is stored.
    pub closed spec fn output_inverted(&self) -> Pin {
        self.output_inverted
    }

    /// The NOR gate `nor_gate_1`.
    pub closed spec fn nor_gate_1(&self) -> NorGate {
        self.nor_gate_1
    }

    /// The NOR gate `nor_gate_2`.
    pub closed spec fn nor_gate_2(&self) -> NorGate {
        self.nor_gate_2
    }

    /// The number of pins that an SR latch adds to a circuit.
    pub open spec fn pin_count() -> nat {
        28
    }

    /// The number of transistor records that an SR latch adds to a circuit.
    pub open spec fn transistor_count() -> nat {
        8
    }

    /// The pin that sets the latch, for an SR latch created in a circuit that had `pins` pins.
    pub open spec fn set_pin(pins: nat) -> Pin {
        NorGate::input_pin(pins + 14, 1)
    }

    /// The pin that resets the latch, for an SR latch created in a circuit that had `pins` pins.
    pub open spec fn reset_pin(pins: nat) -> Pin {
        NorGate::input_pin(pins, 0)
    }

    /// The pin that shows what is stored, for an SR latch created in a circuit that had `pins`
    /// pins.
    pub open spec fn output_pin(pins: nat) -> Pin {
        NorGate::output_pin(pins, 2)
    }

    /// The pin that shows the opposite of what is stored, for an SR latch created in a circuit that
    /// had `pins` pins.
    pub open spec fn output_inverted_pin(pins: nat) -> Pin {
        NorGate::output_pin(pins + 14, 2)
    }

    /// The circuit with one more SR latch: two NOR gates, the output of each fed back to an input
    /// of the other.
    #[verifier::opaque]
    pub open spec fn added(circuit: CircuitView) -> CircuitView {
        let pins = circuit.pins.len();
        let with_nor_gate_1 = NorGate::added(circuit, 2);
        let with_nor_gate_2 = NorGate::added(with_nor_gate_1, 2);
        let nor_gate_1 = pins;
        let nor_gate_2 = pins + 14;
        with_nor_gate_2.connect(
            NorGate::output_pin(nor_gate_1, 2),
            NorGate::input_pin(nor_gate_2, 0),
        ).connect(
            NorGate::output_pin(nor_gate_2, 2),
            NorGate::input_pin(nor_gate_1, 1),
        )
    }

    /// Creates an SR latch, connected to nothing.
    pub fn new(circuit: &mut Circuit) -> (latch: SrLatch)
        requires
            old(circuit)@.wf(),
        ensures
            final(circuit)@ == SrLatch::added(old(circuit)@),
            latch.set() == SrLatch::set_pin(old(circuit)@.pins.len()),
            latch.reset() == SrLatch::reset_pin(old(circuit)@.pins.len()),
            latch.output() == SrLatch::output_pin(old(circuit)@.pins.len()),
            latch.output_inverted() == SrLatch::output_inverted_pin(old(circuit)@.pins.len()),
            latch.transistors() == transistor_range(
                old(circuit)@.transistors.len(),
                SrLatch::transistor_count(),
            ),
            latch.wf(final(circuit)@),
            final(circuit)@.wf(),
            final(circuit)@.pins.len() == old(circuit)@.pins.len() + SrLatch::pin_count(),
            final(circuit)@.transistors.len() == old(circuit)@.transistors.len()
                + SrLatch::transistor_count(),
            old(circuit)@.transistors_kept_in(final(circuit)@),
            old(circuit)@.quiet() ==> final(circuit)@.quiet(),
    {
        reveal(SrLatch::added);
        let nor_gate_1 = NorGate::new(circuit, 2);
        let ghost with_nor_gate_1 = circuit@;
        let nor_gate_2 = NorGate::new(circuit, 2);
        let ghost with_nor_gate_2 = circuit@;
        let set = nor_gate_2.get_input()[1];
        let reset = nor_gate_1.get_input()[0];
        let output = nor_gate_1.get_output();
        let output_inverted = nor_gate_2.get_output();

        Pin::connect(circuit, nor_gate_1.get_output(), nor_gate_2.get_input()[0]);
        Pin::connect(circuit, nor_gate_2.get_output(), nor_gate_1.get_input()[1]);

        proof {
            let first = old(circuit)@.transistors.len();
            nor_gate_1.lemma_wf_grows(with_nor_gate_1, circuit@);
            nor_gate_2.lemma_wf_grows(with_nor_gate_2, circuit@);
            lemma_transistor_range_concat(first, 4, 4);
        }
        SrLatch { nor_gate_1, nor_gate_2, set, reset, output, output_inverted }
    }

    /// The pin that sets the latch.
    pub fn get_set(&self) -> (pin: Pin)
        ensures
            pin == self.set(),
    {
        self.set
    }

    /// The pin that resets the latch.
    pub fn get_reset(&self) -> (pin: Pin)
        ensures
            pin == self.reset(),
    {
        self.reset
    }

    /// The pin that shows what is stored.
    pub fn get_output(&self) -> (pin: Pin)
        ensures
            pin == self.output(),
    {
        self.output
    }

    /// The pin that shows the opposite of what is stored.
    pub fn get_output_inverted(&self) -> (pin: Pin)
        ensures
            pin == self.output_inverted(),
    {
        self.output_inverted
    }

    /// The pins of an SR latch of a circuit are pins of the circuit.
    pub proof fn lemma_pins(&self, circuit: CircuitView)
        requires
            self.wf(circuit),
        ensures
            circuit.has_pin(self.set()),
            circuit.has_pin(self.reset()),
            circuit.has_pin(self.output()),
            circuit.has_pin(self.output_inverted()),
    {
    }
}

impl Device for SrLatch {
    closed spec fn transistors(&self) -> Seq<Transistor> {
        self.nor_gate_1.transistors() + self.nor_gate_2.transistors()
    }

    closed spec fn wf(&self, circuit: CircuitView) -> bool {
        &&& self.nor_gate_1.wf(circuit)
        &&& self.nor_gate_2.wf(circuit)
        &&& circuit.has_pin(self.set)
        &&& circuit.has_pin(self.reset)
        &&& circuit.has_pin(self.output)
        &&& circuit.has_pin(self.output_inverted)
    }

    proof fn lemma_wf_grows(&self, before: CircuitView, after: CircuitView) {
        self.nor_gate_1.lemma_wf_grows(before, after);
        self.nor_gate_2.lemma_wf_grows(before, after);
    }

    open spec fn type_text(&self) -> Seq<char> {
        "SrLatch"@
    }

    fn device_type(&self) -> (name: String) {
        "SrLatch".to_string()
    }

    fn pins(&self, circuit: &Circuit) -> (pins: Vec<(String, DeviceContainer<Pin>)>)
        ensures
            pins.len() == 4,
            pins[0].0@ == "set"@,
            pins[0].1 == DeviceContainer::Single(self.set()),
            pins[1].0@ == "reset"@,
            pins[1].1 == DeviceContainer::Single(self.reset()),
            pins[2].0@ == "output"@,
            pins[2].1 == DeviceContainer::Single(self.output()),
            pins[3].0@ == "output_inverted"@,
            pins[3].1 == DeviceContainer::Single(self.output_inverted()),
    {
        let mut pins: Vec<(String, DeviceContainer<Pin>)> = Vec::new();
        pins.push(single_pin("set", self.set));
        pins.push(single_pin("reset", self.reset));
        pins.push(single_pin("output", self.output));
        pins.push(single_pin("output_inverted", self.output_inverted));
        pins
    }

    fn children(&self, circuit: &Circuit) -> (children: Vec<(String, DeviceContainer<AnyDevice>)>)
        ensures
            children.len() == 2,
            names_child(children[0], "nor_gate_1"@, &self.nor_gate_1(), circuit),
            names_child(children[1], "nor_gate_2"@, &self.nor_gate_2(), circuit),
            children_transistors(children@) == self.transistors(),
    {
        let mut children: Vec<(String, DeviceContainer<AnyDevice>)> = Vec::new();
        add_child(&mut children, single_child("nor_gate_1", &self.nor_gate_1, circuit));
        add_child(&mut children, single_child("nor_gate_2", &self.nor_gate_2, circuit));
        children
    }

    fn as_any(&self, circuit: &Circuit) -> (device: AnyDevice)
        ensures
            device.transistor is None,
            device.pins.len() == 4,
            device.pins[0].0@ == "set"@,
            device.pins[0].1 == DeviceContainer::Single(self.set()),
            device.pins[1].0@ == "reset"@,
            device.pins[1].1 == DeviceContainer::Single(self.reset()),
            device.pins[2].0@ == "output"@,
            device.pins[2].1 == DeviceContainer::Single(self.output()),
            device.pins[3].0@ == "output_inverted"@,
            device.pins[3].1 == DeviceContainer::Single(self.output_inverted()),
            device.children.len() == 2,
            names_child(device.children[0], "nor_gate_1"@, &self.nor_gate_1(), circuit),
            names_child(device.children[1], "nor_gate_2"@, &self.nor_gate_2(), circuit),
    {
        let device = AnyDevice::composite(
            self.device_type(),
            self.pins(circuit),
            self.children(circuit),
        );
        proof {
            device.lemma_composite_wf(circuit@);
        }
        device
    }
}

} // verus!
