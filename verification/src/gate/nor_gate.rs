//! The NOR gate.

use crate::circuit::pin::Pin;
use crate::circuit::Circuit;
use crate::circuit::CircuitView;
use crate::device::add_child;
use crate::device::children_transistors;
use crate::device::each_transistors;
use crate::device::lemma_transistor_range_concat;
use crate::device::multiple_children;
use crate::device::multiple_pins;
use crate::device::names_child;
use crate::device::names_children;
use crate::device::single_child;
use crate::device::single_pin;
use crate::device::transistor_range;
use crate::device::AnyDevice;
use crate::device::Device;
use crate::device::DeviceContainer;
use crate::primitive::constant::Constant;
use crate::primitive::transistor::Transistor;
use crate::value::drive_value::DriveValue;
use vstd::prelude::*;

verus! {

/// A gate made of transistors that performs the NOR function on two or more inputs.
pub struct NorGate {
    strong_true: Constant,
    strong_false: Constant,
    nmos: Vec<Transistor>,
    pmos: Vec<Transistor>,
    input: Vec<Pin>,
    output: Pin,
}

impl NorGate {
    /// The input pins.
    pub closed spec fn input(&self) -> Seq<Pin> {
        self.input@
    }

    /// The output pin.
    pub closed spec fn output(&self) -> Pin {
        self.output
    }

    /// The rail that is tied high.
    pub closed spec fn strong_true(&self) -> Constant {
        self.strong_true
    }

    /// The rail that is tied low.
    pub closed spec fn strong_false(&self) -> Constant {
        self.strong_false
    }

    /// The NMOS transistors, one for each input.
    pub closed spec fn nmos(&self) -> Seq<Transistor> {
        self.nmos@
    }

    /// The PMOS transistors, one for each input.
    pub closed spec fn pmos(&self) -> Seq<Transistor> {
        self.pmos@
    }

    /// The number of pins that a NOR gate with `num_inputs` inputs adds to a circuit.
    pub open spec fn pin_count(num_inputs: nat) -> nat {
        2 + 6 * num_inputs
    }

    /// The number of transistor records that a NOR gate with `num_inputs` inputs adds to a
    /// circuit.
    pub open spec fn transistor_count(num_inputs: nat) -> nat {
        2 * num_inputs
    }

    /// Where the pins of the NMOS transistor at `index` start, for a gate created in a
    /// circuit that had `pins` pins.
    pub open spec fn nmos_at(pins: nat, index: nat) -> nat {
        pins + 2 + 3 * index
    }

    /// Where the pins of the PMOS transistor at `index` start, for a gate with `num_inputs`
    /// inputs created in a circuit that had `pins` pins.
    pub open spec fn pmos_at(pins: nat, num_inputs: nat, index: nat) -> nat {
        pins + 2 + 3 * num_inputs + 3 * index
    }

    /// The input pin at `index`, for a gate created in a circuit that had `pins` pins.
    pub open spec fn input_pin(pins: nat, index: nat) -> Pin {
        Transistor::gate_pin(NorGate::nmos_at(pins, index))
    }

    /// The output pin, for a gate with `num_inputs` inputs created in a circuit that had
    /// `pins` pins.
    pub open spec fn output_pin(pins: nat, num_inputs: nat) -> Pin {
        Transistor::drain_pin(NorGate::nmos_at(pins, (num_inputs - 1) as nat))
    }

    /// The connections that tie the source of every NMOS transistor to the low rail.
    pub open spec fn rail_nets(pins: nat, num_inputs: nat) -> Seq<(Pin, Pin)> {
        Seq::new(
            num_inputs,
            |i: int|
                (
                    Constant::output_pin(pins + 1),
                    Transistor::source_pin(NorGate::nmos_at(pins, i as nat)),
                ),
        )
    }

    /// The connections that put the PMOS transistors in a chain: the drain of each to
    /// the source of the next.
    pub open spec fn chain_nets(pins: nat, num_inputs: nat) -> Seq<(Pin, Pin)> {
        Seq::new(
            (num_inputs - 1) as nat,
            |i: int|
                (
                    Transistor::drain_pin(NorGate::pmos_at(pins, num_inputs, i as nat)),
                    Transistor::source_pin(NorGate::pmos_at(pins, num_inputs, (i + 1) as nat)),
                ),
        )
    }

    /// The connections that tie the drains of the NMOS transistors together: each but
    /// the first to the first.
    pub open spec fn drain_nets(pins: nat, num_inputs: nat) -> Seq<(Pin, Pin)> {
        Seq::new(
            (num_inputs - 1) as nat,
            |i: int|
                (
                    Transistor::drain_pin(NorGate::nmos_at(pins, (i + 1) as nat)),
                    Transistor::drain_pin(NorGate::nmos_at(pins, 0)),
                ),
        )
    }

    /// The connections that make each input drive one NMOS and one PMOS transistor.
    pub open spec fn input_nets(pins: nat, num_inputs: nat) -> Seq<(Pin, Pin)> {
        Seq::new(
            num_inputs,
            |i: int|
                (
                    Transistor::gate_pin(NorGate::nmos_at(pins, i as nat)),
                    Transistor::gate_pin(NorGate::pmos_at(pins, num_inputs, i as nat)),
                ),
        )
    }

    /// All connections of this gate, in the order in which they are made. The PMOS
    /// transistors form a chain from the high rail to the output; the NMOS transistors
    /// stand side by side between the low rail and the output.
    pub open spec fn netlist(pins: nat, num_inputs: nat) -> Seq<(Pin, Pin)> {
        seq![
            (
                Constant::output_pin(pins),
                Transistor::source_pin(NorGate::pmos_at(pins, num_inputs, 0)),
            ),
        ] + NorGate::rail_nets(pins, num_inputs) + NorGate::chain_nets(pins, num_inputs)
            + NorGate::drain_nets(pins, num_inputs) + seq![
            (
                Transistor::drain_pin(NorGate::nmos_at(pins, 0)),
                Transistor::drain_pin(
                    NorGate::pmos_at(pins, num_inputs, (num_inputs - 1) as nat),
                ),
            ),
        ] + NorGate::input_nets(pins, num_inputs)
    }

    /// The circuit with one more NOR gate with `num_inputs` inputs: two rails, then the NMOS
    /// transistors, then the PMOS transistors, connected as the netlist says.
    #[verifier::opaque]
    pub open spec fn added(circuit: CircuitView, num_inputs: nat) -> CircuitView {
        let with_rails = circuit.add_pin(DriveValue::Strong(true)).add_pin(
            DriveValue::Strong(false),
        );
        let with_nmos = Transistor::added_each(with_rails, num_inputs, true);
        let with_pmos = Transistor::added_each(with_nmos, num_inputs, false);
        with_pmos.connect_each(NorGate::netlist(circuit.pins.len(), num_inputs))
    }

    /// Lists the connections of a gate whose parts were created, in the order in which they
    /// are to be made.
    fn connections(
        circuit: &Circuit,
        strong_true: &Constant,
        strong_false: &Constant,
        nmos: &Vec<Transistor>,
        pmos: &Vec<Transistor>,
        Ghost(pins): Ghost<nat>,
        Ghost(first): Ghost<nat>,
    ) -> (netlist: Vec<(Pin, Pin)>)
        requires
            nmos.len() >= 2,
            pmos.len() == nmos.len(),
            strong_true.output() == Constant::output_pin(pins),
            strong_false.output() == Constant::output_pin(pins + 1),
            Transistor::each_at(nmos@, circuit@, first, pins + 2),
            Transistor::each_at(
                pmos@,
                circuit@,
                first + nmos.len() as nat,
                pins + 2 + 3 * nmos.len() as nat,
            ),
            circuit@.pins.len() == pins + 2 + 6 * nmos.len(),
        ensures
            netlist@ == NorGate::netlist(pins, nmos.len() as nat),
            circuit@.has_pairs(netlist@),
    {
        let num_inputs = nmos.len();
        let ghost n = num_inputs as nat;
        let mut netlist: Vec<(Pin, Pin)> = Vec::new();

        // The first PMOS source is connected high.
        netlist.push((strong_true.get_output(), pmos[0].get_source(circuit)));
        let ghost rail = netlist@;

        // All of the NMOS sources are connected low.
        let mut i: usize = 0;
        while i < num_inputs
            invariant
                i <= num_inputs,
                nmos.len() == num_inputs,
                n == num_inputs,
                circuit@.pins.len() == pins + 2 + 6 * n,
                circuit@.has_pairs(netlist@),
                strong_false.output() == Constant::output_pin(pins + 1),
                Transistor::each_at(nmos@, circuit@, first, pins + 2),
                Transistor::each_at(pmos@, circuit@, first + n, pins + 2 + 3 * n),
                netlist@ == rail + NorGate::rail_nets(pins, n).subrange(0, i as int),
            decreases num_inputs - i,
        {
            netlist.push((strong_false.get_output(), nmos[i].get_source(circuit)));
            i += 1;
            assert(netlist@ =~= rail + NorGate::rail_nets(pins, n).subrange(0, i as int));
        }
        let ghost rails = netlist@;

        // The PMOS transistors are connected in a chain.
        let mut i: usize = 0;
        while i + 1 < num_inputs
            invariant
                i + 1 <= num_inputs,
                pmos.len() == num_inputs,
                n == num_inputs,
                circuit@.pins.len() == pins + 2 + 6 * n,
                circuit@.has_pairs(netlist@),
                Transistor::each_at(nmos@, circuit@, first, pins + 2),
                Transistor::each_at(pmos@, circuit@, first + n, pins + 2 + 3 * n),
                netlist@ == rails + NorGate::chain_nets(pins, n).subrange(0, i as int),
            decreases num_inputs - i,
        {
            netlist.push((pmos[i].get_drain(circuit), pmos[i + 1].get_source(circuit)));
            i += 1;
            assert(netlist@ =~= rails + NorGate::chain_nets(pins, n).subrange(0, i as int));
        }
        let ghost chained = netlist@;

        // All of the NMOS drains are connected together, by connecting them all to
        // the first.
        let mut i: usize = 1;
        while i < num_inputs
            invariant
                1 <= i <= num_inputs,
                nmos.len() == num_inputs,
                n == num_inputs,
                circuit@.pins.len() == pins + 2 + 6 * n,
                circuit@.has_pairs(netlist@),
                Transistor::each_at(nmos@, circuit@, first, pins + 2),
                Transistor::each_at(pmos@, circuit@, first + n, pins + 2 + 3 * n),
                netlist@ == chained + NorGate::drain_nets(pins, n).subrange(0, i - 1),
            decreases num_inputs - i,
        {
            netlist.push((nmos[i].get_drain(circuit), nmos[0].get_drain(circuit)));
            i += 1;
            assert(netlist@ =~= chained + NorGate::drain_nets(pins, n).subrange(0, i - 1));
        }

        // The NMOS drains are connected to the last PMOS drain.
        netlist.push(
            (nmos[0].get_drain(circuit), pmos[num_inputs - 1].get_drain(circuit)),
        );
        let ghost tied = netlist@;

        // The inputs reach one NMOS and one PMOS transistor each.
        let mut i: usize = 0;
        while i < num_inputs
            invariant
                i <= num_inputs,
                nmos.len() == num_inputs,
                pmos.len() == num_inputs,
                n == num_inputs,
                circuit@.pins.len() == pins + 2 + 6 * n,
                circuit@.has_pairs(netlist@),
                Transistor::each_at(nmos@, circuit@, first, pins + 2),
                Transistor::each_at(pmos@, circuit@, first + n, pins + 2 + 3 * n),
                netlist@ == tied + NorGate::input_nets(pins, n).subrange(0, i as int),
            decreases num_inputs - i,
        {
            netlist.push((nmos[i].get_gate(circuit), pmos[i].get_gate(circuit)));
            i += 1;
            assert(netlist@ =~= tied + NorGate::input_nets(pins, n).subrange(0, i as int));
        }
        proof {
            assert(netlist@ =~= NorGate::netlist(pins, n));
        }
        netlist
    }

    /// Constructs a NOR gate with the given number of inputs, which must be two or more,
    /// connected to nothing.
    pub fn new(circuit: &mut Circuit, num_inputs: usize) -> (gate: NorGate)
        requires
            old(circuit)@.wf(),
            num_inputs >= 2,
        ensures
            final(circuit)@ == NorGate::added(old(circuit)@, num_inputs as nat),
            gate.input() == Seq::new(
                num_inputs as nat,
                |i: int| NorGate::input_pin(old(circuit)@.pins.len(), i as nat),
            ),
            gate.output() == NorGate::output_pin(old(circuit)@.pins.len(), num_inputs as nat),
            gate.transistors() == transistor_range(
                old(circuit)@.transistors.len(),
                NorGate::transistor_count(num_inputs as nat),
            ),
            gate.wf(final(circuit)@),
            final(circuit)@.wf(),
            final(circuit)@.pins.len() == old(circuit)@.pins.len() + NorGate::pin_count(
                num_inputs as nat,
            ),
            final(circuit)@.transistors.len() == old(circuit)@.transistors.len()
                + NorGate::transistor_count(num_inputs as nat),
            old(circuit)@.transistors_kept_in(final(circuit)@),
            old(circuit)@.quiet() ==> final(circuit)@.quiet(),
    {
        reveal(NorGate::added);
        let ghost pins = old(circuit)@.pins.len();
        let ghost first = old(circuit)@.transistors.len();
        let ghost n = num_inputs as nat;

        // Create the children and pins.
        let strong_true = Constant::new_strong(circuit, true);
        let strong_false = Constant::new_strong(circuit, false);
        let nmos = Transistor::new_each(circuit, num_inputs, true);
        let pmos = Transistor::new_each(circuit, num_inputs, false);
        let ghost parts = circuit@;
        proof {
            assert(Transistor::each_at(nmos@, parts, first, pins + 2));
            assert(Transistor::each_at(pmos@, parts, first + n, pins + 2 + 3 * n));
        }

        let mut input: Vec<Pin> = Vec::new();
        let mut i: usize = 0;
        while i < num_inputs
            invariant
                i <= num_inputs,
                nmos.len() == num_inputs,
                circuit@ == parts,
                Transistor::each_at(nmos@, parts, first, pins + 2),
                input@ == Seq::new(i as nat, |k: int| NorGate::input_pin(pins, k as nat)),
            decreases num_inputs - i,
        {
            input.push(nmos[i].get_gate(circuit));
            i += 1;
            assert(input@ =~= Seq::new(i as nat, |k: int| NorGate::input_pin(pins, k as nat)));
        }
        let output = nmos[num_inputs - 1].get_drain(circuit);

        let netlist = NorGate::connections(
            circuit,
            &strong_true,
            &strong_false,
            &nmos,
            &pmos,
            Ghost(pins),
            Ghost(first),
        );
        Pin::connect_each(circuit, &netlist);

        proof {
            Transistor::lemma_each_is_range(nmos@, parts, first, pins + 2);
            Transistor::lemma_each_is_range(pmos@, parts, first + n, pins + 2 + 3 * n);
            lemma_transistor_range_concat(first, n, n);
            assert(Seq::<Transistor>::empty() + each_transistors(nmos@)
                =~= each_transistors(nmos@));
        }
        NorGate { strong_true, strong_false, nmos, pmos, input, output }
    }

    /// The input pins.
    pub fn get_input(&self) -> (pins: &Vec<Pin>)
        ensures
            pins@ == self.input(),
    {
        &self.input
    }

    /// The output pin.
    pub fn get_output(&self) -> (pin: Pin)
        ensures
            pin == self.output(),
    {
        self.output
    }

    /// The pins of a NOR gate of a circuit are pins of the circuit.
    pub proof fn lemma_pins(&self, circuit: CircuitView)
        requires
            self.wf(circuit),
        ensures
            forall|i: int| 0 <= i < self.input().len()
                ==> circuit.has_pin(#[trigger] self.input()[i]),
            circuit.has_pin(self.output()),
    {
    }
}

impl Device for NorGate {
    closed spec fn transistors(&self) -> Seq<Transistor> {
        self.strong_true.transistors() + self.strong_false.transistors() + each_transistors(
            self.nmos@,
        ) + each_transistors(self.pmos@)
    }

    closed spec fn wf(&self, circuit: CircuitView) -> bool {
        &&& self.strong_true.wf(circuit)
        &&& self.strong_false.wf(circuit)
        &&& forall|i: int| 0 <= i < self.nmos.len() ==> (#[trigger] self.nmos[i]).wf(circuit)
        &&& forall|i: int| 0 <= i < self.pmos.len() ==> (#[trigger] self.pmos[i]).wf(circuit)
        &&& forall|i: int| 0 <= i < self.input.len() ==> circuit.has_pin(#[trigger] self.input[i])
        &&& circuit.has_pin(self.output)
    }

    proof fn lemma_wf_grows(&self, before: CircuitView, after: CircuitView) {
    }

    open spec fn type_text(&self) -> Seq<char> {
        "NorGate"@
    }

    fn device_type(&self) -> (name: String) {
        "NorGate".to_string()
    }

    fn pins(&self, circuit: &Circuit) -> (pins: Vec<(String, DeviceContainer<Pin>)>)
        ensures
            pins.len() == 2,
            pins[0].0@ == "input"@,
            pins[0].1 matches DeviceContainer::Multiple(listed) && listed@ == self.input(),
            pins[1].0@ == "output"@,
            pins[1].1 == DeviceContainer::Single(self.output()),
    {
        let mut pins: Vec<(String, DeviceContainer<Pin>)> = Vec::new();
        pins.push(multiple_pins("input", &self.input));
        pins.push(single_pin("output", self.output));
        pins
    }

    fn children(&self, circuit: &Circuit) -> (children: Vec<(String, DeviceContainer<AnyDevice>)>)
        ensures
            children.len() == 4,
            names_child(children[0], "strong_true"@, &self.strong_true(), circuit),
            names_child(children[1], "strong_false"@, &self.strong_false(), circuit),
            names_children(children[2], "nmos"@, self.nmos(), circuit),
            names_children(children[3], "pmos"@, self.pmos(), circuit),
            children_transistors(children@) == self.transistors(),
    {
        let mut children: Vec<(String, DeviceContainer<AnyDevice>)> = Vec::new();
        add_child(&mut children, single_child("strong_true", &self.strong_true, circuit));
        add_child(&mut children, single_child("strong_false", &self.strong_false, circuit));
        add_child(&mut children, multiple_children("nmos", &self.nmos, circuit));
        add_child(&mut children, multiple_children("pmos", &self.pmos, circuit));
        children
    }

    fn as_any(&self, circuit: &Circuit) -> (device: AnyDevice)
        ensures
            device.transistor is None,
            device.pins.len() == 2,
            device.pins[0].0@ == "input"@,
            device.pins[0].1 matches DeviceContainer::Multiple(listed) && listed@ == self.input(),
            device.pins[1].0@ == "output"@,
            device.pins[1].1 == DeviceContainer::Single(self.output()),
            device.children.len() == 4,
            names_child(device.children[0], "strong_true"@, &self.strong_true(), circuit),
            names_child(device.children[1], "strong_false"@, &self.strong_false(), circuit),
            names_children(device.children[2], "nmos"@, self.nmos(), circuit),
            names_children(device.children[3], "pmos"@, self.pmos(), circuit),
    {
        let device = AnyDevice::composite(
            self.device_type(),
            self.pins(circuit),
            self.children(circuit),
        );
        proof {
            device.lemma_composite_wf(circuit@);
        }
        device
    }
}

} // verus!
