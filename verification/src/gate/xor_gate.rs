//! The XOR gate.

use crate::circuit::Circuit;
use crate::circuit::CircuitView;
use crate::circuit::pin::Pin;
use crate::device::AnyDevice;
use crate::device::Device;
use crate::device::DeviceContainer;
use crate::device::add_child;
use crate::device::children_transistors;
use crate::device::lemma_transistor_range_concat;
use crate::device::lemma_transistor_range_single;
use crate::device::names_child;
use crate::device::single_child;
use crate::device::single_pin;
use crate::device::transistor_range;
use crate::gate::not_gate::NotGate;
use crate::primitive::constant::Constant;
use crate::primitive::transistor::Transistor;
use crate::value::drive_value::DriveValue;
use vstd::prelude::*;

verus! {

/// A gate made of transistors that performs the XOR function on two inputs.
pub struct XorGate {
    strong_true: Constant,
    strong_false: Constant,
    a_not_gate: NotGate,
    a_nmos: Transistor,
    a_inverted_nmos: Transistor,
    a_pmos: Transistor,
    a_inverted_pmos: Transistor,
    b_not_gate: NotGate,
    b_nmos_1: Transistor,
    b_nmos_2: Transistor,
    b_pmos: Transistor,
    b_inverted_pmos: Transistor,
    a_input: Pin,
    b_input: Pin,
    output: Pin,
}

impl XorGate {
    /// The first input pin.
    pub closed spec fn a_input(&self) -> Pin {
        self.a_input
    }

    /// The second input pin.
    pub closed spec fn b_input(&self) -> Pin {
        self.b_input
    }

    /// The output pin.
    pub closed spec fn output(&self) -> Pin {
        self.output
    }

    /// The rail that is tied high.
    pub closed spec fn strong_true(&self) -> Constant {
        self.strong_true
    }

    /// The rail that is tied low.
    pub closed spec fn strong_false(&self) -> Constant {
        self.strong_false
    }

    /// The NOT gate `a_not_gate`.
    pub closed spec fn a_not_gate(&self) -> NotGate {
        self.a_not_gate
    }

    /// The NMOS transistor `a_nmos`.
    pub closed spec fn a_nmos(&self) -> Transistor {
        self.a_nmos
    }

    /// The NMOS transistor `a_inverted_nmos`.
    pub closed spec fn a_inverted_nmos(&self) -> Transistor {
        self.a_inverted_nmos
    }

    /// The PMOS transistor `a_pmos`.
    pub closed spec fn a_pmos(&self) -> Transistor {
        self.a_pmos
    }

    /// The PMOS transistor `a_inverted_pmos`.
    pub closed spec fn a_inverted_pmos(&self) -> Transistor {
        self.a_inverted_pmos
    }

    /// The NOT gate `b_not_gate`.
    pub closed spec fn b_not_gate(&self) -> NotGate {
        self.b_not_gate
    }

    /// The NMOS transistor `b_nmos_1`.
    pub closed spec fn b_nmos_1(&self) -> Transistor {
        self.b_nmos_1
    }

    /// The NMOS transistor `b_nmos_2`.
    pub closed spec fn b_nmos_2(&self) -> Transistor {
        self.b_nmos_2
    }

    /// The PMOS transistor `b_pmos`.
    pub closed spec fn b_pmos(&self) -> Transistor {
        self.b_pmos
    }

    /// The PMOS transistor `b_inverted_pmos`.
    pub closed spec fn b_inverted_pmos(&self) -> Transistor {
        self.b_inverted_pmos
    }

    /// The number of pins that an XOR gate adds to a circuit.
    pub open spec fn pin_count() -> nat {
        42
    }

    /// The number of transistor records that an XOR gate adds to a circuit.
    pub open spec fn transistor_count() -> nat {
        12
    }

    /// The first input pin, for an XOR gate created in a circuit that had `pins` pins.
    pub open spec fn a_input_pin(pins: nat) -> Pin {
        NotGate::input_pin(pins + 2)
    }

    /// The second input pin, for an XOR gate created in a circuit that had `pins` pins.
    pub open spec fn b_input_pin(pins: nat) -> Pin {
        NotGate::input_pin(pins + 22)
    }

    /// The output pin, for an XOR gate created in a circuit that had `pins` pins.
    pub open spec fn output_pin(pins: nat) -> Pin {
        Transistor::drain_pin(pins + 10)
    }

    /// The circuit with one more XOR gate: two branches of two PMOS and two NMOS transistors in
    /// series each, one for either way in which the inputs can agree or differ, that share the
    /// output.
    #[verifier::opaque]
    pub open spec fn added(circuit: CircuitView) -> CircuitView {
        let pins = circuit.pins.len();
        let with_strong_true = circuit.add_pin(DriveValue::Strong(true));
        let with_strong_false = with_strong_true.add_pin(DriveValue::Strong(false));
        let with_a_not_gate = NotGate::added(with_strong_false);
        let with_a_nmos = Transistor::added(with_a_not_gate, true);
        let with_a_inverted_nmos = Transistor::added(with_a_nmos, true);
        let with_a_pmos = Transistor::added(with_a_inverted_nmos, false);
        let with_a_inverted_pmos = Transistor::added(with_a_pmos, false);
        let with_b_not_gate = NotGate::added(with_a_inverted_pmos);
        let with_b_nmos_1 = Transistor::added(with_b_not_gate, true);
        let with_b_nmos_2 = Transistor::added(with_b_nmos_1, true);
        let with_b_pmos = Transistor::added(with_b_nmos_2, false);
        let with_b_inverted_pmos = Transistor::added(with_b_pmos, false);
        let strong_true = pins;
        let strong_false = pins + 1;
        let a_not_gate = pins + 2;
        let a_nmos = pins + 10;
        let a_inverted_nmos = pins + 13;
        let a_pmos = pins + 16;
        let a_inverted_pmos = pins + 19;
        let b_not_gate = pins + 22;
        let b_nmos_1 = pins + 30;
        let b_nmos_2 = pins + 33;
        let b_pmos = pins + 36;
        let b_inverted_pmos = pins + 39;
        with_b_inverted_pmos.connect(
            Constant::output_pin(strong_true),
            Transistor::source_pin(a_pmos),
        ).connect(
            Transistor::drain_pin(a_pmos),
            Transistor::source_pin(b_inverted_pmos),
        ).connect(
            Transistor::drain_pin(b_inverted_pmos),
            Transistor::drain_pin(a_nmos),
        ).connect(
            Transistor::source_pin(a_nmos),
            Transistor::drain_pin(b_nmos_1),
        ).connect(
            Transistor::source_pin(b_nmos_1),
            Constant::output_pin(strong_false),
        ).connect(
            Transistor::gate_pin(a_pmos),
            NotGate::output_pin(a_not_gate),
        ).connect(
            Transistor::gate_pin(b_inverted_pmos),
            NotGate::input_pin(b_not_gate),
        ).connect(
            Transistor::gate_pin(a_nmos),
            NotGate::input_pin(a_not_gate),
        ).connect(
            Transistor::gate_pin(b_nmos_1),
            NotGate::input_pin(b_not_gate),
        ).connect(
            Constant::output_pin(strong_true),
            Transistor::source_pin(a_inverted_pmos),
        ).connect(
            Transistor::drain_pin(a_inverted_pmos),
            Transistor::source_pin(b_pmos),
        ).connect(
            Transistor::drain_pin(b_pmos),
            Transistor::drain_pin(a_inverted_nmos),
        ).connect(
            Transistor::source_pin(a_inverted_nmos),
            Transistor::drain_pin(b_nmos_2),
        ).connect(
            Transistor::source_pin(b_nmos_2),
            Constant::output_pin(strong_false),
        ).connect(
            Transistor::gate_pin(a_inverted_pmos),
            NotGate::input_pin(a_not_gate),
        ).connect(
            Transistor::gate_pin(b_pmos),
            NotGate::output_pin(b_not_gate),
        ).connect(
            Transistor::gate_pin(a_inverted_nmos),
            NotGate::output_pin(a_not_gate),
        ).connect(
            Transistor::gate_pin(b_nmos_2),
            NotGate::output_pin(b_not_gate),
        ).connect(
            Transistor::drain_pin(a_nmos),
            Transistor::drain_pin(a_inverted_nmos),
        )
    }

    /// Constructs a 2-input XOR gate, connected to nothing.
    #[verifier::rlimit(40)]
    pub fn new(circuit: &mut Circuit) -> (gate: XorGate)
        requires
            old(circuit)@.wf(),
        ensures
            final(circuit)@ == XorGate::added(old(circuit)@),
            gate.a_input() == XorGate::a_input_pin(old(circuit)@.pins.len()),
            gate.b_input() == XorGate::b_input_pin(old(circuit)@.pins.len()),
            gate.output() == XorGate::output_pin(old(circuit)@.pins.len()),
            gate.transistors() == transistor_range(
                old(circuit)@.transistors.len(),
                XorGate::transistor_count(),
            ),
            gate.wf(final(circuit)@),
            final(circuit)@.wf(),
            final(circuit)@.pins.len() == old(circuit)@.pins.len() + XorGate::pin_count(),
            final(circuit)@.transistors.len() == old(circuit)@.transistors.len()
                + XorGate::transistor_count(),
            old(circuit)@.transistors_kept_in(final(circuit)@),
            old(circuit)@.quiet() ==> final(circuit)@.quiet(),
    {
        reveal(XorGate::added);
        let strong_true = Constant::new_strong(circuit, true);
        let ghost with_strong_true = circuit@;
        let strong_false = Constant::new_strong(circuit, false);
        let ghost with_strong_false = circuit@;
        let a_not_gate = NotGate::new(circuit);
        let ghost with_a_not_gate = circuit@;
        let a_nmos = Transistor::new_nmos(circuit);
        let ghost with_a_nmos = circuit@;
        let a_inverted_nmos = Transistor::new_nmos(circuit);
        let ghost with_a_inverted_nmos = circuit@;
        let a_pmos = Transistor::new_pmos(circuit);
        let ghost with_a_pmos = circuit@;
        let a_inverted_pmos = Transistor::new_pmos(circuit);
        let ghost with_a_inverted_pmos = circuit@;
        let b_not_gate = NotGate::new(circuit);
        let ghost with_b_not_gate = circuit@;
        let b_nmos_1 = Transistor::new_nmos(circuit);
        let ghost with_b_nmos_1 = circuit@;
        let b_nmos_2 = Transistor::new_nmos(circuit);
        let ghost with_b_nmos_2 = circuit@;
        let b_pmos = Transistor::new_pmos(circuit);
        let ghost with_b_pmos = circuit@;
        let b_inverted_pmos = Transistor::new_pmos(circuit);
        let ghost with_b_inverted_pmos = circuit@;
        let a_input = a_not_gate.get_input();
        let b_input = b_not_gate.get_input();
        let output = a_nmos.get_drain(circuit);

        Pin::connect(circuit, strong_true.get_output(), a_pmos.get_source(circuit));
        Pin::connect(circuit, a_pmos.get_drain(circuit), b_inverted_pmos.get_source(circuit));
        Pin::connect(circuit, b_inverted_pmos.get_drain(circuit), a_nmos.get_drain(circuit));
        Pin::connect(circuit, a_nmos.get_source(circuit), b_nmos_1.get_drain(circuit));
        Pin::connect(circuit, b_nmos_1.get_source(circuit), strong_false.get_output());
        Pin::connect(circuit, a_pmos.get_gate(circuit), a_not_gate.get_output());
        Pin::connect(circuit, b_inverted_pmos.get_gate(circuit), b_not_gate.get_input());
        Pin::connect(circuit, a_nmos.get_gate(circuit), a_not_gate.get_input());
        Pin::connect(circuit, b_nmos_1.get_gate(circuit), b_not_gate.get_input());
        Pin::connect(circuit, strong_true.get_output(), a_inverted_pmos.get_source(circuit));
        Pin::connect(circuit, a_inverted_pmos.get_drain(circuit), b_pmos.get_source(circuit));
        Pin::connect(circuit, b_pmos.get_drain(circuit), a_inverted_nmos.get_drain(circuit));
        Pin::connect(circuit, a_inverted_nmos.get_source(circuit), b_nmos_2.get_drain(circuit));
        Pin::connect(circuit, b_nmos_2.get_source(circuit), strong_false.get_output());
        Pin::connect(circuit, a_inverted_pmos.get_gate(circuit), a_not_gate.get_input());
        Pin::connect(circuit, b_pmos.get_gate(circuit), b_not_gate.get_output());
        Pin::connect(circuit, a_inverted_nmos.get_gate(circuit), a_not_gate.get_output());
        Pin::connect(circuit, b_nmos_2.get_gate(circuit), b_not_gate.get_output());
        Pin::connect(circuit, a_nmos.get_drain(circuit), a_inverted_nmos.get_drain(circuit));

        proof {
            let first = old(circuit)@.transistors.len();
            strong_true.lemma_wf_grows(with_strong_true, circuit@);
            strong_false.lemma_wf_grows(with_strong_false, circuit@);
            a_not_gate.lemma_wf_grows(with_a_not_gate, circuit@);
            a_nmos.lemma_wf_grows(with_a_nmos, circuit@);
            a_inverted_nmos.lemma_wf_grows(with_a_inverted_nmos, circuit@);
            a_pmos.lemma_wf_grows(with_a_pmos, circuit@);
            a_inverted_pmos.lemma_wf_grows(with_a_inverted_pmos, circuit@);
            b_not_gate.lemma_wf_grows(with_b_not_gate, circuit@);
            b_nmos_1.lemma_wf_grows(with_b_nmos_1, circuit@);
            b_nmos_2.lemma_wf_grows(with_b_nmos_2, circuit@);
            b_pmos.lemma_wf_grows(with_b_pmos, circuit@);
            b_inverted_pmos.lemma_wf_grows(with_b_inverted_pmos, circuit@);
            lemma_transistor_range_concat(first, 0, 0);
            lemma_transistor_range_concat(first, 0, 2);
            lemma_transistor_range_single(a_nmos);
            lemma_transistor_range_concat(first, 2, 1);
            lemma_transistor_range_single(a_inverted_nmos);
            lemma_transistor_range_concat(first, 3, 1);
            lemma_transistor_range_single(a_pmos);
            lemma_transistor_range_concat(first, 4, 1);
            lemma_transistor_range_single(a_inverted_pmos);
            lemma_transistor_range_concat(first, 5, 1);
            lemma_transistor_range_concat(first, 6, 2);
            lemma_transistor_range_single(b_nmos_1);
            lemma_transistor_range_concat(first, 8, 1);
            lemma_transistor_range_single(b_nmos_2);
            lemma_transistor_range_concat(first, 9, 1);
            lemma_transistor_range_single(b_pmos);
            lemma_transistor_range_concat(first, 10, 1);
            lemma_transistor_range_single(b_inverted_pmos);
            lemma_transistor_range_concat(first, 11, 1);
        }
        XorGate {
            strong_true,
            strong_false,
            a_not_gate,
            a_nmos,
            a_inverted_nmos,
            a_pmos,
            a_inverted_pmos,
            b_not_gate,
            b_nmos_1,
            b_nmos_2,
            b_pmos,
            b_inverted_pmos,
            a_input,
            b_input,
            output,
        }
    }

    /// The first input pin.
    pub fn get_a_input(&self) -> (pin: Pin)
        ensures
            pin == self.a_input(),
    {
        self.a_input
    }

    /// The second input pin.
    pub fn get_b_input(&self) -> (pin: Pin)
        ensures
            pin == self.b_input(),
    {
        self.b_input
    }

    /// The output pin.
    pub fn get_output(&self) -> (pin: Pin)
        ensures
            pin == self.output(),
    {
        self.output
    }

    /// The pins of an XOR gate of a circuit are pins of the circuit.
    pub proof fn lemma_pins(&self, circuit: CircuitView)
        requires
            self.wf(circuit),
        ensures
            circuit.has_pin(self.a_input()),
            circuit.has_pin(self.b_input()),
            circuit.has_pin(self.output()),
    {
    }
}

impl Device for XorGate {
    closed spec fn transistors(&self) -> Seq<Transistor> {
        self.strong_true.transistors()
            + self.strong_false.transistors()
            + self.a_not_gate.transistors()
            + self.a_nmos.transistors()
            + self.a_inverted_nmos.transistors()
            + self.a_pmos.transistors()
            + self.a_inverted_pmos.transistors()
            + self.b_not_gate.transistors()
            + self.b_nmos_1.transistors()
            + self.b_nmos_2.transistors()
            + self.b_pmos.transistors()
            + self.b_inverted_pmos.transistors()
    }

    closed spec fn wf(&self, circuit: CircuitView) -> bool {
        &&& self.strong_true.wf(circuit)
        &&& self.strong_false.wf(circuit)
        &&& self.a_not_gate.wf(circuit)
        &&& self.a_nmos.wf(circuit)
        &&& self.a_inverted_nmos.wf(circuit)
        &&& self.a_pmos.wf(circuit)
        &&& self.a_inverted_pmos.wf(circuit)
        &&& self.b_not_gate.wf(circuit)
        &&& self.b_nmos_1.wf(circuit)
        &&& self.b_nmos_2.wf(circuit)
        &&& self.b_pmos.wf(circuit)
        &&& self.b_inverted_pmos.wf(circuit)
        &&& circuit.has_pin(self.a_input)
        &&& circuit.has_pin(self.b_input)
        &&& circuit.has_pin(self.output)
    }

    proof fn lemma_wf_grows(&self, before: CircuitView, after: CircuitView) {
        self.strong_true.lemma_wf_grows(before, after);
        self.strong_false.lemma_wf_grows(before, after);
        self.a_not_gate.lemma_wf_grows(before, after);
        self.a_nmos.lemma_wf_grows(before, after);
        self.a_inverted_nmos.lemma_wf_grows(before, after);
        self.a_pmos.lemma_wf_grows(before, after);
        self.a_inverted_pmos.lemma_wf_grows(before, after);
        self.b_not_gate.lemma_wf_grows(before, after);
        self.b_nmos_1.lemma_wf_grows(before, after);
        self.b_nmos_2.lemma_wf_grows(before, after);
        self.b_pmos.lemma_wf_grows(before, after);
        self.b_inverted_pmos.lemma_wf_grows(before, after);
    }

    open spec fn type_text(&self) -> Seq<char> {
        "XorGate"@
    }

    fn device_type(&self) -> (name: String) {
        "XorGate".to_string()
    }

    fn pins(&self, circuit: &Circuit) -> (pins: Vec<(String, DeviceContainer<Pin>)>)
        ensures
            pins.len() == 3,
            pins[0].0@ == "a_input"@,
            pins[0].1 == DeviceContainer::Single(self.a_input()),
            pins[1].0@ == "b_input"@,
            pins[1].1 == DeviceContainer::Single(self.b_input()),
            pins[2].0@ == "output"@,
            pins[2].1 == DeviceContainer::Single(self.output()),
    {
        let mut pins: Vec<(String, DeviceContainer<Pin>)> = Vec::new();
        pins.push(single_pin("a_input", self.a_input));
        pins.push(single_pin("b_input", self.b_input));
        pins.push(single_pin("output", self.output));
        pins
    }

    fn children(&self, circuit: &Circuit) -> (children: Vec<(String, DeviceContainer<AnyDevice>)>)
        ensures
            children.len() == 12,
            names_child(children[0], "strong_true"@, &self.strong_true(), circuit),
            names_child(children[1], "strong_false"@, &self.strong_false(), circuit),
            names_child(children[2], "a_not_gate"@, &self.a_not_gate(), circuit),
            names_child(children[3], "a_nmos"@, &self.a_nmos(), circuit),
            names_child(children[4], "a_inverted_nmos"@, &self.a_inverted_nmos(), circuit),
            names_child(children[5], "a_pmos"@, &self.a_pmos(), circuit),
            names_child(children[6], "a_inverted_pmos"@, &self.a_inverted_pmos(), circuit),
            names_child(children[7], "b_not_gate"@, &self.b_not_gate(), circuit),
            names_child(children[8], "b_nmos_1"@, &self.b_nmos_1(), circuit),
            names_child(children[9], "b_nmos_2"@, &self.b_nmos_2(), circuit),
            names_child(children[10], "b_pmos"@, &self.b_pmos(), circuit),
            names_child(children[11], "b_inverted_pmos"@, &self.b_inverted_pmos(), circuit),
            children_transistors(children@) == self.transistors(),
    {
        let mut children: Vec<(String, DeviceContainer<AnyDevice>)> = Vec::new();
        add_child(&mut children, single_child("strong_true", &self.strong_true, circuit));
        add_child(&mut children, single_child("strong_false", &self.strong_false, circuit));
        add_child(&mut children, single_child("a_not_gate", &self.a_not_gate, circuit));
        add_child(&mut children, single_child("a_nmos", &self.a_nmos, circuit));
        add_child(&mut children, single_child("a_inverted_nmos", &self.a_inverted_nmos, circuit));
        add_child(&mut children, single_child("a_pmos", &self.a_pmos, circuit));
        add_child(&mut children, single_child("a_inverted_pmos", &self.a_inverted_pmos, circuit));
        add_child(&mut children, single_child("b_not_gate", &self.b_not_gate, circuit));
        add_child(&mut children, single_child("b_nmos_1", &self.b_nmos_1, circuit));
        add_child(&mut children, single_child("b_nmos_2", &self.b_nmos_2, circuit));
        add_child(&mut children, single_child("b_pmos", &self.b_pmos, circuit));
        add_child(&mut children, single_child("b_inverted_pmos", &self.b_inverted_pmos, circuit));
        children
    }

    fn as_any(&self, circuit: &Circuit) -> (device: AnyDevice)
        ensures
            device.transistor is None,
            device.pins.len() == 3,
            device.pins[0].0@ == "a_input"@,
            device.pins[0].1 == DeviceContainer::Single(self.a_input()),
            device.pins[1].0@ == "b_input"@,
            device.pins[1].1 == DeviceContainer::Single(self.b_input()),
            device.pins[2].0@ == "output"@,
            device.pins[2].1 == DeviceContainer::Single(self.output()),
            device.children.len() == 12,
            names_child(device.children[0], "strong_true"@, &self.strong_true(), circuit),
            names_child(device.children[1], "strong_false"@, &self.strong_false(), circuit),
            names_child(device.children[2], "a_not_gate"@, &self.a_not_gate(), circuit),
            names_child(device.children[3], "a_nmos"@, &self.a_nmos(), circuit),
            names_child(device.children[4], "a_inverted_nmos"@, &self.a_inverted_nmos(), circuit),
            names_child(device.children[5], "a_pmos"@, &self.a_pmos(), circuit),
            names_child(device.children[6], "a_inverted_pmos"@, &self.a_inverted_pmos(), circuit),
            names_child(device.children[7], "b_not_gate"@, &self.b_not_gate(), circuit),
            names_child(device.children[8], "b_nmos_1"@, &self.b_nmos_1(), circuit),
            names_child(device.children[9], "b_nmos_2"@, &self.b_nmos_2(), circuit),
            names_child(device.children[10], "b_pmos"@, &self.b_pmos(), circuit),
            names_child(device.children[11], "b_inverted_pmos"@, &self.b_inverted_pmos(), circuit),
    {
        let device = AnyDevice::composite(
            self.device_type(),
            self.pins(circuit),
            self.children(circuit),
        );
        proof {
            device.lemma_composite_wf(circuit@);
        }
        device
    }
}

} // verus!
