//! The AND gate.

use crate::circuit::Circuit;
use crate::circuit::CircuitView;
use crate::circuit::pin::Pin;
use crate::device::AnyDevice;
use crate::device::Device;
use crate::device::DeviceContainer;
use crate::device::add_child;
use crate::device::children_transistors;
use crate::device::copy_pins;
use crate::device::lemma_transistor_range_concat;
use crate::device::multiple_pins;
use crate::device::names_child;
use crate::device::single_child;
use crate::device::single_pin;
use crate::device::transistor_range;
use crate::gate::nand_gate::NandGate;
use crate::gate::not_gate::NotGate;
use crate::primitive::transistor::Transistor;
use vstd::prelude::*;

verus! {

/// A composite gate that performs the AND function on two or more inputs. Made of a NAND gate and a
/// NOT gate.
pub struct AndGate {
    nand_gate: NandGate,
    not_gate: NotGate,
    input: Vec<Pin>,
    output: Pin,
}

impl AndGate {
    /// The input pins.
    pub closed spec fn input(&self) -> Seq<Pin> {
        self.input@
    }

    /// The output pin.
    pub closed spec fn output(&self) -> Pin {
        self.output
    }

    /// The NAND gate `nand_gate`.
    pub closed spec fn nand_gate(&self) -> NandGate {
        self.nand_gate
    }

    /// The NOT gate `not_gate`.
    pub closed spec fn not_gate(&self) -> NotGate {
        self.not_gate
    }

    /// The number of pins that an AND gate adds to a circuit.
    pub open spec fn pin_count(num_inputs: nat) -> nat {
        NandGate::pin_count(num_inputs) + 8
    }

    /// The number of transistor records that an AND gate adds to a circuit.
    pub open spec fn transistor_count(num_inputs: nat) -> nat {
        NandGate::transistor_count(num_inputs) + 2
    }

    /// The pin at `index` of the input pins, for an AND gate created in a circuit that had `pins`
    /// pins.
    pub open spec fn input_pin(pins: nat, index: nat) -> Pin {
        NandGate::input_pin(pins, index)
    }

    /// The output pin, for an AND gate created in a circuit that had `pins` pins.
    pub open spec fn output_pin(pins: nat, num_inputs: nat) -> Pin {
        NotGate::output_pin(pins + NandGate::pin_count(num_inputs))
    }

    /// The circuit with one more AND gate with `num_inputs` inputs: a NAND gate whose output feeds
    /// a NOT gate.
    #[verifier::opaque]
    pub open spec fn added(circuit: CircuitView, num_inputs: nat) -> CircuitView {
        let pins = circuit.pins.len();
        let with_nand_gate = NandGate::added(circuit, num_inputs);
        let with_not_gate = NotGate::added(with_nand_gate);
        let nand_gate = pins;
        let not_gate = pins + NandGate::pin_count(num_inputs);
        with_not_gate.connect(
            NandGate::output_pin(nand_gate, num_inputs),
            NotGate::input_pin(not_gate),
        )
    }

    /// Constructs an AND gate with the given number of inputs, which must be two or more, connected
    /// to nothing.
    pub fn new(circuit: &mut Circuit, num_inputs: usize) -> (gate: AndGate)
        requires
            old(circuit)@.wf(),
            num_inputs >= 2,
        ensures
            final(circuit)@ == AndGate::added(old(circuit)@, num_inputs as nat),
            gate.input() == Seq::new(
                num_inputs as nat,
                |i: int| AndGate::input_pin(old(circuit)@.pins.len(), i as nat),
            ),
            gate.output() == AndGate::output_pin(old(circuit)@.pins.len(), num_inputs as nat),
            gate.transistors() == transistor_range(
                old(circuit)@.transistors.len(),
                AndGate::transistor_count(num_inputs as nat),
            ),
            gate.wf(final(circuit)@),
            final(circuit)@.wf(),
            final(circuit)@.pins.len()
                == old(circuit)@.pins.len() + AndGate::pin_count(num_inputs as nat),
            final(circuit)@.transistors.len() == old(circuit)@.transistors.len()
                + AndGate::transistor_count(num_inputs as nat),
            old(circuit)@.transistors_kept_in(final(circuit)@),
            old(circuit)@.quiet() ==> final(circuit)@.quiet(),
    {
        reveal(AndGate::added);
        let nand_gate = NandGate::new(circuit, num_inputs);
        let ghost with_nand_gate = circuit@;
        let not_gate = NotGate::new(circuit);
        let ghost with_not_gate = circuit@;
        let input = copy_pins(nand_gate.get_input());
        let output = not_gate.get_output();

        Pin::connect(circuit, nand_gate.get_output(), not_gate.get_input());

        proof {
            let first = old(circuit)@.transistors.len();
            nand_gate.lemma_wf_grows(with_nand_gate, circuit@);
            not_gate.lemma_wf_grows(with_not_gate, circuit@);
            lemma_transistor_range_concat(first, NandGate::transistor_count(num_inputs as nat), 2);
        }
        AndGate { nand_gate, not_gate, input, output }
    }

    /// The input pins.
    pub fn get_input(&self) -> (pins: &Vec<Pin>)
        ensures
            pins@ == self.input(),
    {
        &self.input
    }

    /// The output pin.
    pub fn get_output(&self) -> (pin: Pin)
        ensures
            pin == self.output(),
    {
        self.output
    }

    /// The pins of an AND gate of a circuit are pins of the circuit.
    pub proof fn lemma_pins(&self, circuit: CircuitView)
        requires
            self.wf(circuit),
        ensures
            forall|i: int| 0 <= i < self.input().len()
                ==> circuit.has_pin(#[trigger] self.input()[i]),
            circuit.has_pin(self.output()),
    {
    }
}

impl Device for AndGate {
    closed spec fn transistors(&self) -> Seq<Transistor> {
        self.nand_gate.transistors() + self.not_gate.transistors()
    }

    closed spec fn wf(&self, circuit: CircuitView) -> bool {
        &&& self.nand_gate.wf(circuit)
        &&& self.not_gate.wf(circuit)
        &&& forall|i: int| 0 <= i < self.input.len() ==> circuit.has_pin(#[trigger] self.input[i])
        &&& circuit.has_pin(self.output)
    }

    proof fn lemma_wf_grows(&self, before: CircuitView, after: CircuitView) {
        self.nand_gate.lemma_wf_grows(before, after);
        self.not_gate.lemma_wf_grows(before, after);
    }

    open spec fn type_text(&self) -> Seq<char> {
        "AndGate"@
    }

    fn device_type(&self) -> (name: String) {
        "AndGate".to_string()
    }

    fn pins(&self, circuit: &Circuit) -> (pins: Vec<(String, DeviceContainer<Pin>)>)
        ensures
            pins.len() == 2,
            pins[0].0@ == "input"@,
            pins[0].1 matches DeviceContainer::Multiple(listed) && listed@ == self.input(),
            pins[1].0@ == "output"@,
            pins[1].1 == DeviceContainer::Single(self.output()),
    {
        let mut pins: Vec<(String, DeviceContainer<Pin>)> = Vec::new();
        pins.push(multiple_pins("input", &self.input));
        pins.push(single_pin("output", self.output));
        pins
    }

    fn children(&self, circuit: &Circuit) -> (children: Vec<(String, DeviceContainer<AnyDevice>)>)
        ensures
            children.len() == 2,
            names_child(children[0], "nand_gate"@, &self.nand_gate(), circuit),
            names_child(children[1], "not_gate"@, &self.not_gate(), circuit),
            children_transistors(children@) == self.transistors(),
    {
        let mut children: Vec<(String, DeviceContainer<AnyDevice>)> = Vec::new();
        add_child(&mut children, single_child("nand_gate", &self.nand_gate, circuit));
        add_child(&mut children, single_child("not_gate", &self.not_gate, circuit));
        children
    }

    fn as_any(&self, circuit: &Circuit) -> (device: AnyDevice)
        ensures
            device.transistor is None,
            device.pins.len() == 2,
            device.pins[0].0@ == "input"@,
            device.pins[0].1 matches DeviceContainer::Multiple(listed) && listed@ == self.input(),
            device.pins[1].0@ == "output"@,
            device.pins[1].1 == DeviceContainer::Single(self.output()),
            device.children.len() == 2,
            names_child(device.children[0], "nand_gate"@, &self.nand_gate(), circuit),
            names_child(device.children[1], "not_gate"@, &self.not_gate(), circuit),
    {
        let device = AnyDevice::composite(
            self.device_type(),
            self.pins(circuit),
            self.children(circuit),
        );
        proof {
            device.lemma_composite_wf(circuit@);
        }
        device
    }
}

} // verus!
