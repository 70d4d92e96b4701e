//! The half adder.

use crate::circuit::Circuit;
use crate::circuit::CircuitView;
use crate::circuit::pin::Pin;
use crate::device::AnyDevice;
use crate::device::Device;
use crate::device::DeviceContainer;
use crate::device::add_child;
use crate::device::children_transistors;
use crate::device::lemma_transistor_range_concat;
use crate::device::names_child;
use crate::device::single_child;
use crate::device::single_pin;
use crate::device::transistor_range;
use crate::gate::and_gate::AndGate;
use crate::gate::xor_gate::XorGate;
use crate::primitive::transistor::Transistor;
use vstd::prelude::*;

verus! {

/// A half adder: adds two one-bit numbers and puts out their sum and a carry.
pub struct HalfAdder {
    and_gate: AndGate,
    xor_gate: XorGate,
    a: Pin,
    b: Pin,
    sum: Pin,
    carry: Pin,
}

impl HalfAdder {
    /// The first input pin.
    pub closed spec fn a(&self) -> Pin {
        self.a
    }

    /// The second input pin.
    pub closed spec fn b(&self) -> Pin {
        self.b
    }

    /// The pin that shows the sum.
    pub closed spec fn sum(&self) -> Pin {
        self.sum
    }

    /// The pin that shows the carry.
    pub closed spec fn carry(&self) -> Pin {
        self.carry
    }

    /// The AND gate `and_gate`.
    pub closed spec fn and_gate(&self) -> AndGate {
        self.and_gate
    }

    /// The XOR gate `xor_gate`.
    pub closed spec fn xor_gate(&self) -> XorGate {
        self.xor_gate
    }

    /// The number of pins that a half adder adds to a circuit.
    pub open spec fn pin_count() -> nat {
        64
    }

    /// The number of transistor records that a half adder adds to a circuit.
    pub open spec fn transistor_count() -> nat {
        18
    }

    /// The first input pin, for a half adder created in a circuit that had `pins` pins.
    pub open spec fn a_pin(pins: nat) -> Pin {
        AndGate::input_pin(pins, 0)
    }

    /// The second input pin, for a half adder created in a circuit that had `pins` pins.
    pub open spec fn b_pin(pins: nat) -> Pin {
        AndGate::input_pin(pins, 1)
    }

    /// The pin that shows the sum, for a half adder created in a circuit that had `pins` pins.
    pub open spec fn sum_pin(pins: nat) -> Pin {
        XorGate::output_pin(pins + 22)
    }

    /// The pin that shows the carry, for a half adder created in a circuit that had `pins` pins.
    pub open spec fn carry_pin(pins: nat) -> Pin {
        AndGate::output_pin(pins, 2)
    }

    /// The circuit with one more half adder: an AND gate for the carry and an XOR gate for the sum,
    /// on the same two inputs.
    #[verifier::opaque]
    pub open spec fn added(circuit: CircuitView) -> CircuitView {
        let pins = circuit.pins.len();
        let with_and_gate = AndGate::added(circuit, 2);
        let with_xor_gate = XorGate::added(with_and_gate);
        let and_gate = pins;
        let xor_gate = pins + 22;
        with_xor_gate.connect(
            AndGate::input_pin(and_gate, 0),
            XorGate::a_input_pin(xor_gate),
        ).connect(
            AndGate::input_pin(and_gate, 1),
            XorGate::b_input_pin(xor_gate),
        )
    }

    /// Creates a half adder, connected to nothing.
    pub fn new(circuit: &mut Circuit) -> (adder: HalfAdder)
        requires
            old(circuit)@.wf(),
        ensures
            final(circuit)@ == HalfAdder::added(old(circuit)@),
            adder.a() == HalfAdder::a_pin(old(circuit)@.pins.len()),
            adder.b() == HalfAdder::b_pin(old(circuit)@.pins.len()),
            adder.sum() == HalfAdder::sum_pin(old(circuit)@.pins.len()),
            adder.carry() == HalfAdder::carry_pin(old(circuit)@.pins.len()),
            adder.transistors() == transistor_range(
                old(circuit)@.transistors.len(),
                HalfAdder::transistor_count(),
            ),
            adder.wf(final(circuit)@),
            final(circuit)@.wf(),
            final(circuit)@.pins.len() == old(circuit)@.pins.len() + HalfAdder::pin_count(),
            final(circuit)@.transistors.len() == old(circuit)@.transistors.len()
                + HalfAdder::transistor_count(),
            old(circuit)@.transistors_kept_in(final(circuit)@),
            old(circuit)@.quiet() ==> final(circuit)@.quiet(),
    {
        reveal(HalfAdder::added);
        let and_gate = AndGate::new(circuit, 2);
        let ghost with_and_gate = circuit@;
        let xor_gate = XorGate::new(circuit);
        let ghost with_xor_gate = circuit@;
        let a = and_gate.get_input()[0];
        let b = and_gate.get_input()[1];
        let sum = xor_gate.get_output();
        let carry = and_gate.get_output();

        Pin::connect(circuit, and_gate.get_input()[0], xor_gate.get_a_input());
        Pin::connect(circuit, and_gate.get_input()[1], xor_gate.get_b_input());

        proof {
            let first = old(circuit)@.transistors.len();
            and_gate.lemma_wf_grows(with_and_gate, circuit@);
            xor_gate.lemma_wf_grows(with_xor_gate, circuit@);
            lemma_transistor_range_concat(first, 6, 12);
        }
        HalfAdder { and_gate, xor_gate, a, b, sum, carry }
    }

    /// The first input pin.
    pub fn get_a(&self) -> (pin: Pin)
        ensures
            pin == self.a(),
    {
        self.a
    }

    /// The second input pin.
    pub fn get_b(&self) -> (pin: Pin)
        ensures
            pin == self.b(),
    {
        self.b
    }

    /// The pin that shows the sum.
    pub fn get_sum(&self) -> (pin: Pin)
        ensures
            pin == self.sum(),
    {
        self.sum
    }

    /// The pin that shows the carry.
    pub fn get_carry(&self) -> (pin: Pin)
        ensures
            pin == self.carry(),
    {
        self.carry
    }

    /// The pins of a half adder of a circuit are pins of the circuit.
    pub proof fn lemma_pins(&self, circuit: CircuitView)
        requires
            self.wf(circuit),
        ensures
            circuit.has_pin(self.a()),
            circuit.has_pin(self.b()),
            circuit.has_pin(self.sum()),
            circuit.has_pin(self.carry()),
    {
    }
}

impl Device for HalfAdder {
    closed spec fn transistors(&self) -> Seq<Transistor> {
        self.and_gate.transistors() + self.xor_gate.transistors()
    }

    closed spec fn wf(&self, circuit: CircuitView) -> bool {
        &&& self.and_gate.wf(circuit)
        &&& self.xor_gate.wf(circuit)
        &&& circuit.has_pin(self.a)
        &&& circuit.has_pin(self.b)
        &&& circuit.has_pin(self.sum)
        &&& circuit.has_pin(self.carry)
    }

    proof fn lemma_wf_grows(&self, before: CircuitView, after: CircuitView) {
        self.and_gate.lemma_wf_grows(before, after);
        self.xor_gate.lemma_wf_grows(before, after);
    }

    open spec fn type_text(&self) -> Seq<char> {
        "HalfAdder"@
    }

    fn device_type(&self) -> (name: String) {
        "HalfAdder".to_string()
    }

    fn pins(&self, circuit: &Circuit) -> (pins: Vec<(String, DeviceContainer<Pin>)>)
        ensures
            pins.len() == 4,
            pins[0].0@ == "a"@,
            pins[0].1 == DeviceContainer::Single(self.a()),
            pins[1].0@ == "b"@,
            pins[1].1 == DeviceContainer::Single(self.b()),
            pins[2].0@ == "sum"@,
            pins[2].1 == DeviceContainer::Single(self.sum()),
            pins[3].0@ == "carry"@,
            pins[3].1 == DeviceContainer::Single(self.carry()),
    {
        let mut pins: Vec<(String, DeviceContainer<Pin>)> = Vec::new();
        pins.push(single_pin("a", self.a));
        pins.push(single_pin("b", self.b));
        pins.push(single_pin("sum", self.sum));
        pins.push(single_pin("carry", self.carry));
        pins
    }

    fn children(&self, circuit: &Circuit) -> (children: Vec<(String, DeviceContainer<AnyDevice>)>)
        ensures
            children.len() == 2,
            names_child(children[0], "and_gate"@, &self.and_gate(), circuit),
            names_child(children[1], "xor_gate"@, &self.xor_gate(), circuit),
            children_transistors(children@) == self.transistors(),
    {
        let mut children: Vec<(String, DeviceContainer<AnyDevice>)> = Vec::new();
        add_child(&mut children, single_child("and_gate", &self.and_gate, circuit));
        add_child(&mut children, single_child("xor_gate", &self.xor_gate, circuit));
        children
    }

    fn as_any(&self, circuit: &Circuit) -> (device: AnyDevice)
        ensures
            device.transistor is None,
            device.pins.len() == 4,
            device.pins[0].0@ == "a"@,
            device.pins[0].1 == DeviceContainer::Single(self.a()),
            device.pins[1].0@ == "b"@,
            device.pins[1].1 == DeviceContainer::Single(self.b()),
            device.pins[2].0@ == "sum"@,
            device.pins[2].1 == DeviceContainer::Single(self.sum()),
            device.pins[3].0@ == "carry"@,
            device.pins[3].1 == DeviceContainer::Single(self.carry()),
            device.children.len() == 2,
            names_child(device.children[0], "and_gate"@, &self.and_gate(), circuit),
            names_child(device.children[1], "xor_gate"@, &self.xor_gate(), circuit),
    {
        let device = AnyDevice::composite(
            self.device_type(),
            self.pins(circuit),
            self.children(circuit),
        );
        proof {
            device.lemma_composite_wf(circuit@);
        }
        device
    }
}

} // verus!
