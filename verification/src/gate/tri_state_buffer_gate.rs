//! The tri-state buffer gate.

use crate::circuit::Circuit;
use crate::circuit::CircuitView;
use crate::circuit::pin::Pin;
use crate::device::AnyDevice;
use crate::device::Device;
use crate::device::DeviceContainer;
use crate::device::add_child;
use crate::device::children_transistors;
use crate::device::lemma_transistor_range_concat;
use crate::device::lemma_transistor_range_single;
use crate::device::names_child;
use crate::device::single_child;
use crate::device::single_pin;
use crate::device::transistor_range;
use crate::gate::not_gate::NotGate;
use crate::primitive::constant::Constant;
use crate::primitive::transistor::Transistor;
use crate::value::drive_value::DriveValue;
use vstd::prelude::*;

verus! {

/// A gate made of transistors that passes a value through or lets go of its output, as its enable
/// pin says.
pub struct TriStateBufferGate {
    strong_true: Constant,
    strong_false: Constant,
    enable_not_gate: NotGate,
    enable_nmos: Transistor,
    enable_pmos: Transistor,
    input_not_gate: NotGate,
    input_nmos: Transistor,
    input_pmos: Transistor,
    enable: Pin,
    input: Pin,
    output: Pin,
}

impl TriStateBufferGate {
    /// The enable pin: the output is driven while it is low.
    pub closed spec fn enable(&self) -> Pin {
        self.enable
    }

    /// The input pin.
    pub closed spec fn input(&self) -> Pin {
        self.input
    }

    /// The output pin.
    pub closed spec fn output(&self) -> Pin {
        self.output
    }

    /// The rail that is tied high.
    pub closed spec fn strong_true(&self) -> Constant {
        self.strong_true
    }

    /// The rail that is tied low.
    pub closed spec fn strong_false(&self) -> Constant {
        self.strong_false
    }

    /// The NOT gate `enable_not_gate`.
    pub closed spec fn enable_not_gate(&self) -> NotGate {
        self.enable_not_gate
    }

    /// The NMOS transistor `enable_nmos`.
    pub closed spec fn enable_nmos(&self) -> Transistor {
        self.enable_nmos
    }

    /// The PMOS transistor `enable_pmos`.
    pub closed spec fn enable_pmos(&self) -> Transistor {
        self.enable_pmos
    }

    /// The NOT gate `input_not_gate`.
    pub closed spec fn input_not_gate(&self) -> NotGate {
        self.input_not_gate
    }

    /// The NMOS transistor `input_nmos`.
    pub closed spec fn input_nmos(&self) -> Transistor {
        self.input_nmos
    }

    /// The PMOS transistor `input_pmos`.
    pub closed spec fn input_pmos(&self) -> Transistor {
        self.input_pmos
    }

    /// The number of pins that a tri-state buffer gate adds to a circuit.
    pub open spec fn pin_count() -> nat {
        30
    }

    /// The number of transistor records that a tri-state buffer gate adds to a circuit.
    pub open spec fn transistor_count() -> nat {
        8
    }

    /// The enable pin: the output is driven while it is low, for a tri-state buffer gate created in
    /// a circuit that had `pins` pins.
    pub open spec fn enable_pin(pins: nat) -> Pin {
        NotGate::input_pin(pins + 2)
    }

    /// The input pin, for a tri-state buffer gate created in a circuit that had `pins` pins.
    pub open spec fn input_pin(pins: nat) -> Pin {
        NotGate::input_pin(pins + 16)
    }

    /// The output pin, for a tri-state buffer gate created in a circuit that had `pins` pins.
    pub open spec fn output_pin(pins: nat) -> Pin {
        Transistor::drain_pin(pins + 24)
    }

    /// The circuit with one more tri-state buffer. The enable transistors stand between the rails
    /// and the input transistors, so that the output is driven only while the enable pin is low.
    #[verifier::opaque]
    pub open spec fn added(circuit: CircuitView) -> CircuitView {
        let pins = circuit.pins.len();
        let with_strong_true = circuit.add_pin(DriveValue::Strong(true));
        let with_strong_false = with_strong_true.add_pin(DriveValue::Strong(false));
        let with_enable_not_gate = NotGate::added(with_strong_false);
        let with_enable_nmos = Transistor::added(with_enable_not_gate, true);
        let with_enable_pmos = Transistor::added(with_enable_nmos, false);
        let with_input_not_gate = NotGate::added(with_enable_pmos);
        let with_input_nmos = Transistor::added(with_input_not_gate, true);
        let with_input_pmos = Transistor::added(with_input_nmos, false);
        let strong_true = pins;
        let strong_false = pins + 1;
        let enable_not_gate = pins + 2;
        let enable_nmos = pins + 10;
        let enable_pmos = pins + 13;
        let input_not_gate = pins + 16;
        let input_nmos = pins + 24;
        let input_pmos = pins + 27;
        with_input_pmos.connect(
            Constant::output_pin(strong_true),
            Transistor::source_pin(enable_pmos),
        ).connect(
            Constant::output_pin(strong_false),
            Transistor::source_pin(enable_nmos),
        ).connect(
            Transistor::drain_pin(enable_pmos),
            Transistor::source_pin(input_pmos),
        ).connect(
            Transistor::drain_pin(enable_nmos),
            Transistor::source_pin(input_nmos),
        ).connect(
            Transistor::drain_pin(input_nmos),
            Transistor::drain_pin(input_pmos),
        ).connect(
            NotGate::output_pin(input_not_gate),
            Transistor::gate_pin(input_nmos),
        ).connect(
            NotGate::output_pin(input_not_gate),
            Transistor::gate_pin(input_pmos),
        ).connect(
            NotGate::input_pin(enable_not_gate),
            Transistor::gate_pin(enable_pmos),
        ).connect(
            NotGate::output_pin(enable_not_gate),
            Transistor::gate_pin(enable_nmos),
        )
    }

    /// Constructs a tri-state buffer gate, connected to nothing.
    #[verifier::rlimit(40)]
    pub fn new(circuit: &mut Circuit) -> (gate: TriStateBufferGate)
        requires
            old(circuit)@.wf(),
        ensures
            final(circuit)@ == TriStateBufferGate::added(old(circuit)@),
            gate.enable() == TriStateBufferGate::enable_pin(old(circuit)@.pins.len()),
            gate.input() == TriStateBufferGate::input_pin(old(circuit)@.pins.len()),
            gate.output() == TriStateBufferGate::output_pin(old(circuit)@.pins.len()),
            gate.transistors() == transistor_range(
                old(circuit)@.transistors.len(),
                TriStateBufferGate::transistor_count(),
            ),
            gate.wf(final(circuit)@),
            final(circuit)@.wf(),
            final(circuit)@.pins.len()
                == old(circuit)@.pins.len() + TriStateBufferGate::pin_count(),
            final(circuit)@.transistors.len() == old(circuit)@.transistors.len()
                + TriStateBufferGate::transistor_count(),
            old(circuit)@.transistors_kept_in(final(circuit)@),
            old(circuit)@.quiet() ==> final(circuit)@.quiet(),
    {
        reveal(TriStateBufferGate::added);
        let strong_true = Constant::new_strong(circuit, true);
        let ghost with_strong_true = circuit@;
        let strong_false = Constant::new_strong(circuit, false);
        let ghost with_strong_false = circuit@;
        let enable_not_gate = NotGate::new(circuit);
        let ghost with_enable_not_gate = circuit@;
        let enable_nmos = Transistor::new_nmos(circuit);
        let ghost with_enable_nmos = circuit@;
        let enable_pmos = Transistor::new_pmos(circuit);
        let ghost with_enable_pmos = circuit@;
        let input_not_gate = NotGate::new(circuit);
        let ghost with_input_not_gate = circuit@;
        let input_nmos = Transistor::new_nmos(circuit);
        let ghost with_input_nmos = circuit@;
        let input_pmos = Transistor::new_pmos(circuit);
        let ghost with_input_pmos = circuit@;
        let enable = enable_not_gate.get_input();
        let input = input_not_gate.get_input();
        let output = input_nmos.get_drain(circuit);

        Pin::connect(circuit, strong_true.get_output(), enable_pmos.get_source(circuit));
        Pin::connect(circuit, strong_false.get_output(), enable_nmos.get_source(circuit));
        Pin::connect(circuit, enable_pmos.get_drain(circuit), input_pmos.get_source(circuit));
        Pin::connect(circuit, enable_nmos.get_drain(circuit), input_nmos.get_source(circuit));
        Pin::connect(circuit, input_nmos.get_drain(circuit), input_pmos.get_drain(circuit));
        Pin::connect(circuit, input_not_gate.get_output(), input_nmos.get_gate(circuit));
        Pin::connect(circuit, input_not_gate.get_output(), input_pmos.get_gate(circuit));
        Pin::connect(circuit, enable_not_gate.get_input(), enable_pmos.get_gate(circuit));
        Pin::connect(circuit, enable_not_gate.get_output(), enable_nmos.get_gate(circuit));

        proof {
            let first = old(circuit)@.transistors.len();
            strong_true.lemma_wf_grows(with_strong_true, circuit@);
            strong_false.lemma_wf_grows(with_strong_false, circuit@);
            enable_not_gate.lemma_wf_grows(with_enable_not_gate, circuit@);
            enable_nmos.lemma_wf_grows(with_enable_nmos, circuit@);
            enable_pmos.lemma_wf_grows(with_enable_pmos, circuit@);
            input_not_gate.lemma_wf_grows(with_input_not_gate, circuit@);
            input_nmos.lemma_wf_grows(with_input_nmos, circuit@);
            input_pmos.lemma_wf_grows(with_input_pmos, circuit@);
            lemma_transistor_range_concat(first, 0, 0);
            lemma_transistor_range_concat(first, 0, 2);
            lemma_transistor_range_single(enable_nmos);
            lemma_transistor_range_concat(first, 2, 1);
            lemma_transistor_range_single(enable_pmos);
            lemma_transistor_range_concat(first, 3, 1);
            lemma_transistor_range_concat(first, 4, 2);
            lemma_transistor_range_single(input_nmos);
            lemma_transistor_range_concat(first, 6, 1);
            lemma_transistor_range_single(input_pmos);
            lemma_transistor_range_concat(first, 7, 1);
        }
        TriStateBufferGate {
            strong_true,
            strong_false,
            enable_not_gate,
            enable_nmos,
            enable_pmos,
            input_not_gate,
            input_nmos,
            input_pmos,
            enable,
            input,
            output,
        }
    }

    /// The enable pin: the output is driven while it is low.
    pub fn get_enable(&self) -> (pin: Pin)
        ensures
            pin == self.enable(),
    {
        self.enable
    }

    /// The input pin.
    pub fn get_input(&self) -> (pin: Pin)
        ensures
            pin == self.input(),
    {
        self.input
    }

    /// The output pin.
    pub fn get_output(&self) -> (pin: Pin)
        ensures
            pin == self.output(),
    {
        self.output
    }

    /// The pins of a tri-state buffer gate of a circuit are pins of the circuit.
    pub proof fn lemma_pins(&self, circuit: CircuitView)
        requires
            self.wf(circuit),
        ensures
            circuit.has_pin(self.enable()),
            circuit.has_pin(self.input()),
            circuit.has_pin(self.output()),
    {
    }
}

impl Device for TriStateBufferGate {
    closed spec fn transistors(&self) -> Seq<Transistor> {
        self.strong_true.transistors()
            + self.strong_false.transistors()
            + self.enable_not_gate.transistors()
            + self.enable_nmos.transistors()
            + self.enable_pmos.transistors()
            + self.input_not_gate.transistors()
            + self.input_nmos.transistors()
            + self.input_pmos.transistors()
    }

    closed spec fn wf(&self, circuit: CircuitView) -> bool {
        &&& self.strong_true.wf(circuit)
        &&& self.strong_false.wf(circuit)
        &&& self.enable_not_gate.wf(circuit)
        &&& self.enable_nmos.wf(circuit)
        &&& self.enable_pmos.wf(circuit)
        &&& self.input_not_gate.wf(circuit)
        &&& self.input_nmos.wf(circuit)
        &&& self.input_pmos.wf(circuit)
        &&& circuit.has_pin(self.enable)
        &&& circuit.has_pin(self.input)
        &&& circuit.has_pin(self.output)
    }

    proof fn lemma_wf_grows(&self, before: CircuitView, after: CircuitView) {
        self.strong_true.lemma_wf_grows(before, after);
        self.strong_false.lemma_wf_grows(before, after);
        self.enable_not_gate.lemma_wf_grows(before, after);
        self.enable_nmos.lemma_wf_grows(before, after);
        self.enable_pmos.lemma_wf_grows(before, after);
        self.input_not_gate.lemma_wf_grows(before, after);
        self.input_nmos.lemma_wf_grows(before, after);
        self.input_pmos.lemma_wf_grows(before, after);
    }

    open spec fn type_text(&self) -> Seq<char> {
        "TriStateBufferGate"@
    }

    fn device_type(&self) -> (name: String) {
        "TriStateBufferGate".to_string()
    }

    fn pins(&self, circuit: &Circuit) -> (pins: Vec<(String, DeviceContainer<Pin>)>)
        ensures
            pins.len() == 3,
            pins[0].0@ == "enable"@,
            pins[0].1 == DeviceContainer::Single(self.enable()),
            pins[1].0@ == "input"@,
            pins[1].1 == DeviceContainer::Single(self.input()),
            pins[2].0@ == "output"@,
            pins[2].1 == DeviceContainer::Single(self.output()),
    {
        let mut pins: Vec<(String, DeviceContainer<Pin>)> = Vec::new();
        pins.push(single_pin("enable", self.enable));
        pins.push(single_pin("input", self.input));
        pins.push(single_pin("output", self.output));
        pins
    }

    fn children(&self, circuit: &Circuit) -> (children: Vec<(String, DeviceContainer<AnyDevice>)>)
        ensures
            children.len() == 8,
            names_child(children[0], "strong_true"@, &self.strong_true(), circuit),
            names_child(children[1], "strong_false"@, &self.strong_false(), circuit),
            names_child(children[2], "enable_not_gate"@, &self.enable_not_gate(), circuit),
            names_child(children[3], "enable_nmos"@, &self.enable_nmos(), circuit),
            names_child(children[4], "enable_pmos"@, &self.enable_pmos(), circuit),
            names_child(children[5], "input_not_gate"@, &self.input_not_gate(), circuit),
            names_child(children[6], "input_nmos"@, &self.input_nmos(), circuit),
            names_child(children[7], "input_pmos"@, &self.input_pmos(), circuit),
            children_transistors(children@) == self.transistors(),
    {
        let mut children: Vec<(String, DeviceContainer<AnyDevice>)> = Vec::new();
        add_child(&mut children, single_child("strong_true", &self.strong_true, circuit));
        add_child(&mut children, single_child("strong_false", &self.strong_false, circuit));
        add_child(&mut children, single_child("enable_not_gate", &self.enable_not_gate, circuit));
        add_child(&mut children, single_child("enable_nmos", &self.enable_nmos, circuit));
        add_child(&mut children, single_child("enable_pmos", &self.enable_pmos, circuit));
        add_child(&mut children, single_child("input_not_gate", &self.input_not_gate, circuit));
        add_child(&mut children, single_child("input_nmos", &self.input_nmos, circuit));
        add_child(&mut children, single_child("input_pmos", &self.input_pmos, circuit));
        children
    }

    fn as_any(&self, circuit: &Circuit) -> (device: AnyDevice)
        ensures
            device.transistor is None,
            device.pins.len() == 3,
            device.pins[0].0@ == "enable"@,
            device.pins[0].1 == DeviceContainer::Single(self.enable()),
            device.pins[1].0@ == "input"@,
            device.pins[1].1 == DeviceContainer::Single(self.input()),
            device.pins[2].0@ == "output"@,
            device.pins[2].1 == DeviceContainer::Single(self.output()),
            device.children.len() == 8,
            names_child(device.children[0], "strong_true"@, &self.strong_true(), circuit),
            names_child(device.children[1], "strong_false"@, &self.strong_false(), circuit),
            names_child(device.children[2], "enable_not_gate"@, &self.enable_not_gate(), circuit),
            names_child(device.children[3], "enable_nmos"@, &self.enable_nmos(), circuit),
            names_child(device.children[4], "enable_pmos"@, &self.enable_pmos(), circuit),
            names_child(device.children[5], "input_not_gate"@, &self.input_not_gate(), circuit),
            names_child(device.children[6], "input_nmos"@, &self.input_nmos(), circuit),
            names_child(device.children[7], "input_pmos"@, &self.input_pmos(), circuit),
    {
        let device = AnyDevice::composite(
            self.device_type(),
            self.pins(circuit),
            self.children(circuit),
        );
        proof {
            device.lemma_composite_wf(circuit@);
        }
        device
    }
}

} // verus!
