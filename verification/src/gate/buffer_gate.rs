//! The buffer gate.

use crate::circuit::pin::Pin;
use crate::circuit::Circuit;
use crate::circuit::CircuitView;
use crate::device::add_child;
use crate::device::children_transistors;
use crate::device::each_transistors;
use crate::device::lemma_transistor_range_concat;
use crate::device::multiple_children;
use crate::device::names_children;
use crate::device::single_pin;
use crate::device::transistor_range;
use crate::device::AnyDevice;
use crate::device::Device;
use crate::device::DeviceContainer;
use crate::gate::not_gate::NotGate;
use crate::primitive::transistor::Transistor;
use vstd::prelude::*;

verus! {

/// A gate that performs the identity function. Made of two NOT gates, one behind the other.
pub struct BufferGate {
    not_gate: Vec<NotGate>,
    input: Pin,
    output: Pin,
}

impl BufferGate {
    /// The input pin.
    pub closed spec fn input(&self) -> Pin {
        self.input
    }

    /// The output pin.
    pub closed spec fn output(&self) -> Pin {
        self.output
    }

    /// The two NOT gates, the first at the input.
    pub closed spec fn not_gate(&self) -> Seq<NotGate> {
        self.not_gate@
    }

    /// The number of pins that a buffer gate adds to a circuit.
    pub open spec fn pin_count() -> nat {
        16
    }

    /// The number of transistor records that a buffer gate adds to a circuit.
    pub open spec fn transistor_count() -> nat {
        4
    }

    /// The input pin, for a buffer gate created in a circuit that had `pins` pins.
    pub open spec fn input_pin(pins: nat) -> Pin {
        NotGate::input_pin(pins)
    }

    /// The output pin, for a buffer gate created in a circuit that had `pins` pins.
    pub open spec fn output_pin(pins: nat) -> Pin {
        NotGate::output_pin(pins + 8)
    }

    /// The circuit with one more buffer gate: two NOT gates, the output of the first
    /// connected to the input of the second.
    #[verifier::opaque]
    pub open spec fn added(circuit: CircuitView) -> CircuitView {
        let pins = circuit.pins.len();
        NotGate::added(NotGate::added(circuit)).connect(
            NotGate::output_pin(pins),
            NotGate::input_pin(pins + 8),
        )
    }

    /// Constructs a buffer gate, connected to nothing.
    pub fn new(circuit: &mut Circuit) -> (gate: BufferGate)
        requires
            old(circuit)@.wf(),
        ensures
            final(circuit)@ == BufferGate::added(old(circuit)@),
            gate.input() == BufferGate::input_pin(old(circuit)@.pins.len()),
            gate.output() == BufferGate::output_pin(old(circuit)@.pins.len()),
            gate.transistors() == transistor_range(
                old(circuit)@.transistors.len(),
                BufferGate::transistor_count(),
            ),
            gate.wf(final(circuit)@),
            final(circuit)@.wf(),
            final(circuit)@.pins.len() == old(circuit)@.pins.len() + BufferGate::pin_count(),
            final(circuit)@.transistors.len() == old(circuit)@.transistors.len()
                + BufferGate::transistor_count(),
            old(circuit)@.transistors_kept_in(final(circuit)@),
            old(circuit)@.quiet() ==> final(circuit)@.quiet(),
    {
        reveal(BufferGate::added);
        let mut not_gate: Vec<NotGate> = Vec::new();
        not_gate.push(NotGate::new(circuit));
        let ghost with_first = circuit@;
        not_gate.push(NotGate::new(circuit));
        let ghost with_second = circuit@;
        let input = not_gate[0].get_input();
        let output = not_gate[1].get_output();

        Pin::connect(circuit, not_gate[0].get_output(), not_gate[1].get_input());

        proof {
            let first = old(circuit)@.transistors.len();
            not_gate[0].lemma_wf_grows(with_first, circuit@);
            not_gate[1].lemma_wf_grows(with_second, circuit@);
            let one = not_gate@.drop_last();
            assert(one.drop_last() =~= Seq::empty());
            assert(one.last() == not_gate[0]);
            assert(not_gate@.last() == not_gate[1]);
            assert(each_transistors(one.drop_last()) =~= Seq::empty());
            assert(each_transistors(one) =~= transistor_range(first, 2));
            lemma_transistor_range_concat(first, 2, 2);
            assert(each_transistors(not_gate@) =~= transistor_range(first, 4));
        }
        BufferGate { not_gate, input, output }
    }

    /// The input pin.
    pub fn get_input(&self) -> (pin: Pin)
        ensures
            pin == self.input(),
    {
        self.input
    }

    /// The output pin.
    pub fn get_output(&self) -> (pin: Pin)
        ensures
            pin == self.output(),
    {
        self.output
    }

    /// The pins of a buffer gate of a circuit are pins of the circuit.
    pub proof fn lemma_pins(&self, circuit: CircuitView)
        requires
            self.wf(circuit),
        ensures
            circuit.has_pin(self.input()),
            circuit.has_pin(self.output()),
    {
    }
}

impl Device for BufferGate {
    closed spec fn transistors(&self) -> Seq<Transistor> {
        each_transistors(self.not_gate@)
    }

    closed spec fn wf(&self, circuit: CircuitView) -> bool {
        &&& forall|i: int|
            0 <= i < self.not_gate.len() ==> (#[trigger] self.not_gate[i]).wf(circuit)
        &&& circuit.has_pin(self.input)
        &&& circuit.has_pin(self.output)
    }

    proof fn lemma_wf_grows(&self, before: CircuitView, after: CircuitView) {
        assert forall|i: int| 0 <= i < self.not_gate.len() implies (#[trigger] self.not_gate[i]).wf(
            after,
        ) by {
            self.not_gate[i].lemma_wf_grows(before, after);
        }
    }

    open spec fn type_text(&self) -> Seq<char> {
        "BufferGate"@
    }

    fn device_type(&self) -> (name: String) {
        "BufferGate".to_string()
    }

    fn pins(&self, circuit: &Circuit) -> (pins: Vec<(String, DeviceContainer<Pin>)>)
        ensures
            pins.len() == 2,
            pins[0].0@ == "input"@,
            pins[0].1 == DeviceContainer::Single(self.input()),
            pins[1].0@ == "output"@,
            pins[1].1 == DeviceContainer::Single(self.output()),
    {
        let mut pins: Vec<(String, DeviceContainer<Pin>)> = Vec::new();
        pins.push(single_pin("input", self.input));
        pins.push(single_pin("output", self.output));
        pins
    }

    fn children(&self, circuit: &Circuit) -> (children: Vec<(String, DeviceContainer<AnyDevice>)>)
        ensures
            children.len() == 1,
            names_children(children[0], "not_gate"@, self.not_gate(), circuit),
            children_transistors(children@) == self.transistors(),
    {
        let mut children: Vec<(String, DeviceContainer<AnyDevice>)> = Vec::new();
        add_child(&mut children, multiple_children("not_gate", &self.not_gate, circuit));
        assert(Seq::<Transistor>::empty() + each_transistors(self.not_gate@) =~= each_transistors(
            self.not_gate@,
        ));
        children
    }

    fn as_any(&self, circuit: &Circuit) -> (device: AnyDevice)
        ensures
            device.transistor is None,
            device.pins.len() == 2,
            device.pins[0].0@ == "input"@,
            device.pins[0].1 == DeviceContainer::Single(self.input()),
            device.pins[1].0@ == "output"@,
            device.pins[1].1 == DeviceContainer::Single(self.output()),
            device.children.len() == 1,
            names_children(device.children[0], "not_gate"@, self.not_gate(), circuit),
    {
        let device = AnyDevice::composite(
            self.device_type(),
            self.pins(circuit),
            self.children(circuit),
        );
        proof {
            device.lemma_composite_wf(circuit@);
        }
        device
    }
}

} // verus!
