//! The full adder.

use crate::adder::half_adder::HalfAdder;
use crate::circuit::Circuit;
use crate::circuit::CircuitView;
use crate::circuit::pin::Pin;
use crate::device::AnyDevice;
use crate::device::Device;
use crate::device::DeviceContainer;
use crate::device::add_child;
use crate::device::children_transistors;
use crate::device::lemma_transistor_range_concat;
use crate::device::names_child;
use crate::device::single_child;
use crate::device::single_pin;
use crate::device::transistor_range;
use crate::gate::or_gate::OrGate;
use crate::primitive::transistor::Transistor;
use vstd::prelude::*;

verus! {

/// A full adder, made of two half adders and an OR gate: a half adder with one more input, for a
/// carry that comes in.
pub struct FullAdder {
    input_half_adder: HalfAdder,
    carry_half_adder: HalfAdder,
    or_gate: OrGate,
    a: Pin,
    b: Pin,
    carry_in: Pin,
    sum: Pin,
    carry: Pin,
}

impl FullAdder {
    /// The first input pin.
    pub closed spec fn a(&self) -> Pin {
        self.a
    }

    /// The second input pin.
    pub closed spec fn b(&self) -> Pin {
        self.b
    }

    /// The pin for the carry that comes in.
    pub closed spec fn carry_in(&self) -> Pin {
        self.carry_in
    }

    /// The pin that shows the sum.
    pub closed spec fn sum(&self) -> Pin {
        self.sum
    }

    /// The pin that shows the carry that goes out.
    pub closed spec fn carry(&self) -> Pin {
        self.carry
    }

    /// The half adder `input_half_adder`.
    pub closed spec fn input_half_adder(&self) -> HalfAdder {
        self.input_half_adder
    }

    /// The half adder `carry_half_adder`.
    pub closed spec fn carry_half_adder(&self) -> HalfAdder {
        self.carry_half_adder
    }

    /// The OR gate `or_gate`.
    pub closed spec fn or_gate(&self) -> OrGate {
        self.or_gate
    }

    /// The number of pins that a full adder adds to a circuit.
    pub open spec fn pin_count() -> nat {
        150
    }

    /// The number of transistor records that a full adder adds to a circuit.
    pub open spec fn transistor_count() -> nat {
        42
    }

    /// The first input pin, for a full adder created in a circuit that had `pins` pins.
    pub open spec fn a_pin(pins: nat) -> Pin {
        HalfAdder::a_pin(pins)
    }

    /// The second input pin, for a full adder created in a circuit that had `pins` pins.
    pub open spec fn b_pin(pins: nat) -> Pin {
        HalfAdder::b_pin(pins)
    }

    /// The pin for the carry that comes in, for a full adder created in a circuit that had `pins`
    /// pins.
    pub open spec fn carry_in_pin(pins: nat) -> Pin {
        HalfAdder::a_pin(pins + 64)
    }

    /// The pin that shows the sum, for a full adder created in a circuit that had `pins` pins.
    pub open spec fn sum_pin(pins: nat) -> Pin {
        HalfAdder::sum_pin(pins + 64)
    }

    /// The pin that shows the carry that goes out, for a full adder created in a circuit that had
    /// `pins` pins.
    pub open spec fn carry_pin(pins: nat) -> Pin {
        OrGate::output_pin(pins + 128, 2)
    }

    /// The circuit with one more full adder: the first half adder adds the two inputs, the second
    /// adds the carry that comes in to their sum, and either carry is the carry that goes out.
    #[verifier::opaque]
    pub open spec fn added(circuit: CircuitView) -> CircuitView {
        let pins = circuit.pins.len();
        let with_input_half_adder = HalfAdder::added(circuit);
        let with_carry_half_adder = HalfAdder::added(with_input_half_adder);
        let with_or_gate = OrGate::added(with_carry_half_adder, 2);
        let input_half_adder = pins;
        let carry_half_adder = pins + 64;
        let or_gate = pins + 128;
        with_or_gate.connect(
            HalfAdder::sum_pin(input_half_adder),
            HalfAdder::b_pin(carry_half_adder),
        ).connect(
            HalfAdder::carry_pin(carry_half_adder),
            OrGate::input_pin(or_gate, 0),
        ).connect(
            HalfAdder::carry_pin(input_half_adder),
            OrGate::input_pin(or_gate, 1),
        )
    }

    /// Creates a full adder, connected to nothing.
    pub fn new(circuit: &mut Circuit) -> (adder: FullAdder)
        requires
            old(circuit)@.wf(),
        ensures
            final(circuit)@ == FullAdder::added(old(circuit)@),
            adder.a() == FullAdder::a_pin(old(circuit)@.pins.len()),
            adder.b() == FullAdder::b_pin(old(circuit)@.pins.len()),
            adder.carry_in() == FullAdder::carry_in_pin(old(circuit)@.pins.len()),
            adder.sum() == FullAdder::sum_pin(old(circuit)@.pins.len()),
            adder.carry() == FullAdder::carry_pin(old(circuit)@.pins.len()),
            adder.transistors() == transistor_range(
                old(circuit)@.transistors.len(),
                FullAdder::transistor_count(),
            ),
            adder.wf(final(circuit)@),
            final(circuit)@.wf(),
            final(circuit)@.pins.len() == old(circuit)@.pins.len() + FullAdder::pin_count(),
            final(circuit)@.transistors.len() == old(circuit)@.transistors.len()
                + FullAdder::transistor_count(),
            old(circuit)@.transistors_kept_in(final(circuit)@),
            old(circuit)@.quiet() ==> final(circuit)@.quiet(),
    {
        reveal(FullAdder::added);
        let input_half_adder = HalfAdder::new(circuit);
        let ghost with_input_half_adder = circuit@;
        let carry_half_adder = HalfAdder::new(circuit);
        let ghost with_carry_half_adder = circuit@;
        let or_gate = OrGate::new(circuit, 2);
        let ghost with_or_gate = circuit@;
        let a = input_half_adder.get_a();
        let b = input_half_adder.get_b();
        let carry_in = carry_half_adder.get_a();
        let sum = carry_half_adder.get_sum();
        let carry = or_gate.get_output();

        Pin::connect(circuit, input_half_adder.get_sum(), carry_half_adder.get_b());
        Pin::connect(circuit, carry_half_adder.get_carry(), or_gate.get_input()[0]);
        Pin::connect(circuit, input_half_adder.get_carry(), or_gate.get_input()[1]);

        proof {
            let first = old(circuit)@.transistors.len();
            input_half_adder.lemma_wf_grows(with_input_half_adder, circuit@);
            carry_half_adder.lemma_wf_grows(with_carry_half_adder, circuit@);
            or_gate.lemma_wf_grows(with_or_gate, circuit@);
            lemma_transistor_range_concat(first, 18, 18);
            lemma_transistor_range_concat(first, 36, 6);
        }
        FullAdder { input_half_adder, carry_half_adder, or_gate, a, b, carry_in, sum, carry }
    }

    /// The first input pin.
    pub fn get_a(&self) -> (pin: Pin)
        ensures
            pin == self.a(),
    {
        self.a
    }

    /// The second input pin.
    pub fn get_b(&self) -> (pin: Pin)
        ensures
            pin == self.b(),
    {
        self.b
    }

    /// The pin for the carry that comes in.
    pub fn get_carry_in(&self) -> (pin: Pin)
        ensures
            pin == self.carry_in(),
    {
        self.carry_in
    }

    /// The pin that shows the sum.
    pub fn get_sum(&self) -> (pin: Pin)
        ensures
            pin == self.sum(),
    {
        self.sum
    }

    /// The pin that shows the carry that goes out.
    pub fn get_carry(&self) -> (pin: Pin)
        ensures
            pin == self.carry(),
    {
        self.carry
    }

    /// The pins of a full adder of a circuit are pins of the circuit.
    pub proof fn lemma_pins(&self, circuit: CircuitView)
        requires
            self.wf(circuit),
        ensures
            circuit.has_pin(self.a()),
            circuit.has_pin(self.b()),
            circuit.has_pin(self.carry_in()),
            circuit.has_pin(self.sum()),
            circuit.has_pin(self.carry()),
    {
    }
}

impl Device for FullAdder {
    closed spec fn transistors(&self) -> Seq<Transistor> {
        self.input_half_adder.transistors()
            + self.carry_half_adder.transistors()
            + self.or_gate.transistors()
    }

    closed spec fn wf(&self, circuit: CircuitView) -> bool {
        &&& self.input_half_adder.wf(circuit)
        &&& self.carry_half_adder.wf(circuit)
        &&& self.or_gate.wf(circuit)
        &&& circuit.has_pin(self.a)
        &&& circuit.has_pin(self.b)
        &&& circuit.has_pin(self.carry_in)
        &&& circuit.has_pin(self.sum)
        &&& circuit.has_pin(self.carry)
    }

    proof fn lemma_wf_grows(&self, before: CircuitView, after: CircuitView) {
        self.input_half_adder.lemma_wf_grows(before, after);
        self.carry_half_adder.lemma_wf_grows(before, after);
        self.or_gate.lemma_wf_grows(before, after);
    }

    open spec fn type_text(&self) -> Seq<char> {
        "FullAdder"@
    }

    fn device_type(&self) -> (name: String) {
        "FullAdder".to_string()
    }

    fn pins(&self, circuit: &Circuit) -> (pins: Vec<(String, DeviceContainer<Pin>)>)
        ensures
            pins.len() == 5,
            pins[0].0@ == "a"@,
            pins[0].1 == DeviceContainer::Single(self.a()),
            pins[1].0@ == "b"@,
            pins[1].1 == DeviceContainer::Single(self.b()),
            pins[2].0@ == "carry_in"@,
            pins[2].1 == DeviceContainer::Single(self.carry_in()),
            pins[3].0@ == "sum"@,
            pins[3].1 == DeviceContainer::Single(self.sum()),
            pins[4].0@ == "carry"@,
            pins[4].1 == DeviceContainer::Single(self.carry()),
    {
        let mut pins: Vec<(String, DeviceContainer<Pin>)> = Vec::new();
        pins.push(single_pin("a", self.a));
        pins.push(single_pin("b", self.b));
        pins.push(single_pin("carry_in", self.carry_in));
        pins.push(single_pin("sum", self.sum));
        pins.push(single_pin("carry", self.carry));
        pins
    }

    fn children(&self, circuit: &Circuit) -> (children: Vec<(String, DeviceContainer<AnyDevice>)>)
        ensures
            children.len() == 3,
            names_child(children[0], "input_half_adder"@, &self.input_half_adder(), circuit),
            names_child(children[1], "carry_half_adder"@, &self.carry_half_adder(), circuit),
            names_child(children[2], "or_gate"@, &self.or_gate(), circuit),
            children_transistors(children@) == self.transistors(),
    {
        let mut children: Vec<(String, DeviceContainer<AnyDevice>)> = Vec::new();
        add_child(&mut children, single_child("input_half_adder", &self.input_half_adder, circuit));
        add_child(&mut children, single_child("carry_half_adder", &self.carry_half_adder, circuit));
        add_child(&mut children, single_child("or_gate", &self.or_gate, circuit));
        children
    }

    fn as_any(&self, circuit: &Circuit) -> (device: AnyDevice)
        ensures
            device.transistor is None,
            device.pins.len() == 5,
            device.pins[0].0@ == "a"@,
            device.pins[0].1 == DeviceContainer::Single(self.a()),
            device.pins[1].0@ == "b"@,
            device.pins[1].1 == DeviceContainer::Single(self.b()),
            device.pins[2].0@ == "carry_in"@,
            device.pins[2].1 == DeviceContainer::Single(self.carry_in()),
            device.pins[3].0@ == "sum"@,
            device.pins[3].1 == DeviceContainer::Single(self.sum()),
            device.pins[4].0@ == "carry"@,
            device.pins[4].1 == DeviceContainer::Single(self.carry()),
            device.children.len() == 3,
            names_child(device.children[0], "input_half_adder"@, &self.input_half_adder(), circuit),
            names_child(device.children[1], "carry_half_adder"@, &self.carry_half_adder(), circuit),
            names_child(device.children[2], "or_gate"@, &self.or_gate(), circuit),
    {
        let device = AnyDevice::composite(
            self.device_type(),
            self.pins(circuit),
            self.children(circuit),
        );
        proof {
            device.lemma_composite_wf(circuit@);
        }
        device
    }
}

} // verus!
