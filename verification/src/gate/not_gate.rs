//! The NOT gate.

use crate::circuit::Circuit;
use crate::circuit::CircuitView;
use crate::circuit::pin::Pin;
use crate::device::AnyDevice;
use crate::device::Device;
use crate::device::DeviceContainer;
use crate::device::add_child;
use crate::device::children_transistors;
use crate::device::lemma_transistor_range_concat;
use crate::device::lemma_transistor_range_single;
use crate::device::names_child;
use crate::device::single_child;
use crate::device::single_pin;
use crate::device::transistor_range;
use crate::primitive::constant::Constant;
use crate::primitive::transistor::Transistor;
use crate::value::drive_value::DriveValue;
use vstd::prelude::*;

verus! {

/// A gate made of two transistors that performs the NOT function.
pub struct NotGate {
    constant_true: Constant,
    constant_false: Constant,
    nmos: Transistor,
    pmos: Transistor,
    input: Pin,
    output: Pin,
}

impl NotGate {
    /// The input pin.
    pub closed spec fn input(&self) -> Pin {
        self.input
    }

    /// The output pin.
    pub closed spec fn output(&self) -> Pin {
        self.output
    }

    /// The rail that is tied high.
    pub closed spec fn constant_true(&self) -> Constant {
        self.constant_true
    }

    /// The rail that is tied low.
    pub closed spec fn constant_false(&self) -> Constant {
        self.constant_false
    }

    /// The NMOS transistor `nmos`.
    pub closed spec fn nmos(&self) -> Transistor {
        self.nmos
    }

    /// The PMOS transistor `pmos`.
    pub closed spec fn pmos(&self) -> Transistor {
        self.pmos
    }

    /// The number of pins that a NOT gate adds to a circuit.
    pub open spec fn pin_count() -> nat {
        8
    }

    /// The number of transistor records that a NOT gate adds to a circuit.
    pub open spec fn transistor_count() -> nat {
        2
    }

    /// The input pin, for a NOT gate created in a circuit that had `pins` pins.
    pub open spec fn input_pin(pins: nat) -> Pin {
        Transistor::gate_pin(pins + 2)
    }

    /// The output pin, for a NOT gate created in a circuit that had `pins` pins.
    pub open spec fn output_pin(pins: nat) -> Pin {
        Transistor::drain_pin(pins + 2)
    }

    /// The circuit with one more NOT gate. Both transistors listen to the input and drive the
    /// output: the NMOS pulls it low while the input is high, the PMOS pulls it high while the
    /// input is low.
    #[verifier::opaque]
    pub open spec fn added(circuit: CircuitView) -> CircuitView {
        let pins = circuit.pins.len();
        let with_constant_true = circuit.add_pin(DriveValue::Strong(true));
        let with_constant_false = with_constant_true.add_pin(DriveValue::Strong(false));
        let with_nmos = Transistor::added(with_constant_false, true);
        let with_pmos = Transistor::added(with_nmos, false);
        let constant_true = pins;
        let constant_false = pins + 1;
        let nmos = pins + 2;
        let pmos = pins + 5;
        with_pmos.connect(
            Transistor::gate_pin(nmos),
            Transistor::gate_pin(pmos),
        ).connect(
            Transistor::drain_pin(nmos),
            Transistor::drain_pin(pmos),
        ).connect(
            Constant::output_pin(constant_false),
            Transistor::source_pin(nmos),
        ).connect(
            Constant::output_pin(constant_true),
            Transistor::source_pin(pmos),
        )
    }

    /// Constructs a NOT gate, connected to nothing.
    pub fn new(circuit: &mut Circuit) -> (gate: NotGate)
        requires
            old(circuit)@.wf(),
        ensures
            final(circuit)@ == NotGate::added(old(circuit)@),
            gate.input() == NotGate::input_pin(old(circuit)@.pins.len()),
            gate.output() == NotGate::output_pin(old(circuit)@.pins.len()),
            gate.transistors() == transistor_range(
                old(circuit)@.transistors.len(),
                NotGate::transistor_count(),
            ),
            gate.wf(final(circuit)@),
            final(circuit)@.wf(),
            final(circuit)@.pins.len() == old(circuit)@.pins.len() + NotGate::pin_count(),
            final(circuit)@.transistors.len() == old(circuit)@.transistors.len()
                + NotGate::transistor_count(),
            old(circuit)@.transistors_kept_in(final(circuit)@),
            old(circuit)@.quiet() ==> final(circuit)@.quiet(),
    {
        reveal(NotGate::added);
        let constant_true = Constant::new_strong(circuit, true);
        let ghost with_constant_true = circuit@;
        let constant_false = Constant::new_strong(circuit, false);
        let ghost with_constant_false = circuit@;
        let nmos = Transistor::new_nmos(circuit);
        let ghost with_nmos = circuit@;
        let pmos = Transistor::new_pmos(circuit);
        let ghost with_pmos = circuit@;
        let input = nmos.get_gate(circuit);
        let output = nmos.get_drain(circuit);

        Pin::connect(circuit, nmos.get_gate(circuit), pmos.get_gate(circuit));
        Pin::connect(circuit, nmos.get_drain(circuit), pmos.get_drain(circuit));
        Pin::connect(circuit, constant_false.get_output(), nmos.get_source(circuit));
        Pin::connect(circuit, constant_true.get_output(), pmos.get_source(circuit));

        proof {
            let first = old(circuit)@.transistors.len();
            constant_true.lemma_wf_grows(with_constant_true, circuit@);
            constant_false.lemma_wf_grows(with_constant_false, circuit@);
            nmos.lemma_wf_grows(with_nmos, circuit@);
            pmos.lemma_wf_grows(with_pmos, circuit@);
            lemma_transistor_range_concat(first, 0, 0);
            lemma_transistor_range_single(nmos);
            lemma_transistor_range_concat(first, 0, 1);
            lemma_transistor_range_single(pmos);
            lemma_transistor_range_concat(first, 1, 1);
        }
        NotGate { constant_true, constant_false, nmos, pmos, input, output }
    }

    /// The input pin.
    pub fn get_input(&self) -> (pin: Pin)
        ensures
            pin == self.input(),
    {
        self.input
    }

    /// The output pin.
    pub fn get_output(&self) -> (pin: Pin)
        ensures
            pin == self.output(),
    {
        self.output
    }

    /// The pins of a NOT gate of a circuit are pins of the circuit.
    pub proof fn lemma_pins(&self, circuit: CircuitView)
        requires
            self.wf(circuit),
        ensures
            circuit.has_pin(self.input()),
            circuit.has_pin(self.output()),
    {
    }
}

impl Device for NotGate {
    closed spec fn transistors(&self) -> Seq<Transistor> {
        self.constant_true.transistors()
            + self.constant_false.transistors()
            + self.nmos.transistors()
            + self.pmos.transistors()
    }

    closed spec fn wf(&self, circuit: CircuitView) -> bool {
        &&& self.constant_true.wf(circuit)
        &&& self.constant_false.wf(circuit)
        &&& self.nmos.wf(circuit)
        &&& self.pmos.wf(circuit)
        &&& circuit.has_pin(self.input)
        &&& circuit.has_pin(self.output)
    }

    proof fn lemma_wf_grows(&self, before: CircuitView, after: CircuitView) {
        self.constant_true.lemma_wf_grows(before, after);
        self.constant_false.lemma_wf_grows(before, after);
        self.nmos.lemma_wf_grows(before, after);
        self.pmos.lemma_wf_grows(before, after);
    }

    open spec fn type_text(&self) -> Seq<char> {
        "NotGate"@
    }

    fn device_type(&self) -> (name: String) {
        "NotGate".to_string()
    }

    fn pins(&self, circuit: &Circuit) -> (pins: Vec<(String, DeviceContainer<Pin>)>)
        ensures
            pins.len() == 2,
            pins[0].0@ == "input"@,
            pins[0].1 == DeviceContainer::Single(self.input()),
            pins[1].0@ == "output"@,
            pins[1].1 == DeviceContainer::Single(self.output()),
    {
        let mut pins: Vec<(String, DeviceContainer<Pin>)> = Vec::new();
        pins.push(single_pin("input", self.input));
        pins.push(single_pin("output", self.output));
        pins
    }

    fn children(&self, circuit: &Circuit) -> (children: Vec<(String, DeviceContainer<AnyDevice>)>)
        ensures
            children.len() == 4,
            names_child(children[0], "constant_true"@, &self.constant_true(), circuit),
            names_child(children[1], "constant_false"@, &self.constant_false(), circuit),
            names_child(children[2], "nmos"@, &self.nmos(), circuit),
            names_child(children[3], "pmos"@, &self.pmos(), circuit),
            children_transistors(children@) == self.transistors(),
    {
        let mut children: Vec<(String, DeviceContainer<AnyDevice>)> = Vec::new();
        add_child(&mut children, single_child("constant_true", &self.constant_true, circuit));
        add_child(&mut children, single_child("constant_false", &self.constant_false, circuit));
        add_child(&mut children, single_child("nmos", &self.nmos, circuit));
        add_child(&mut children, single_child("pmos", &self.pmos, circuit));
        children
    }

    fn as_any(&self, circuit: &Circuit) -> (device: AnyDevice)
        ensures
            device.transistor is None,
            device.pins.len() == 2,
            device.pins[0].0@ == "input"@,
            device.pins[0].1 == DeviceContainer::Single(self.input()),
            device.pins[1].0@ == "output"@,
            device.pins[1].1 == DeviceContainer::Single(self.output()),
            device.children.len() == 4,
            names_child(device.children[0], "constant_true"@, &self.constant_true(), circuit),
            names_child(device.children[1], "constant_false"@, &self.constant_false(), circuit),
            names_child(device.children[2], "nmos"@, &self.nmos(), circuit),
            names_child(device.children[3], "pmos"@, &self.pmos(), circuit),
    {
        let device = AnyDevice::composite(
            self.device_type(),
            self.pins(circuit),
            self.children(circuit),
        );
        proof {
            device.lemma_composite_wf(circuit@);
        }
        device
    }
}

} // verus!
