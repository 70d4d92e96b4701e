//! The ripple-carry adder.

use crate::adder::full_adder::FullAdder;
use crate::circuit::pin::Pin;
use crate::circuit::Circuit;
use crate::circuit::CircuitView;
use crate::device::add_child;
use crate::device::children_transistors;
use crate::device::each_transistors;
use crate::device::lemma_transistor_range_concat;
use crate::device::multiple_children;
use crate::device::multiple_pins;
use crate::device::names_child;
use crate::device::names_children;
use crate::device::single_child;
use crate::device::single_pin;
use crate::device::transistor_range;
use crate::device::AnyDevice;
use crate::device::Device;
use crate::device::DeviceContainer;
use crate::primitive::constant::Constant;
use crate::primitive::transistor::Transistor;
use crate::value::drive_value::DriveValue;
use vstd::prelude::*;

verus! {

/// A simple and slow device that adds two unsigned numbers of `width` bits: a chain of full
/// adders in which each hands its carry to the next.
pub struct RippleCarryAdder {
    strong_false: Constant,
    adders: Vec<FullAdder>,
    input_a: Vec<Pin>,
    input_b: Vec<Pin>,
    sum: Vec<Pin>,
    overflow: Pin,
}

impl RippleCarryAdder {
    /// The pins for the bits of the first number, lowest bit first.
    pub closed spec fn input_a(&self) -> Seq<Pin> {
        self.input_a@
    }

    /// The pins for the bits of the second number, lowest bit first.
    pub closed spec fn input_b(&self) -> Seq<Pin> {
        self.input_b@
    }

    /// The pins that show the bits of the sum, lowest bit first.
    pub closed spec fn sum(&self) -> Seq<Pin> {
        self.sum@
    }

    /// The pin that shows whether the sum needs one more bit.
    pub closed spec fn overflow(&self) -> Pin {
        self.overflow
    }

    /// The rail that is tied low: no carry comes in to the lowest bit.
    pub closed spec fn strong_false(&self) -> Constant {
        self.strong_false
    }

    /// The full adders, from the lowest bit up.
    pub closed spec fn adders(&self) -> Seq<FullAdder> {
        self.adders@
    }

    /// The number of pins that an adder of `width` bits adds to a circuit.
    pub open spec fn pin_count(width: nat) -> nat {
        1 + 150 * width
    }

    /// The number of transistor records that an adder of `width` bits adds to a circuit.
    pub open spec fn transistor_count(width: nat) -> nat {
        42 * width
    }

    /// Where the pins of the full adder for the bit `index` start, for an adder created in a
    /// circuit that had `pins` pins.
    pub open spec fn adder_at(pins: nat, index: nat) -> nat {
        pins + 1 + 150 * index
    }

    /// The pin for the bit `index` of the first number, for an adder created in a circuit
    /// that had `pins` pins.
    pub open spec fn input_a_pin(pins: nat, index: nat) -> Pin {
        FullAdder::a_pin(RippleCarryAdder::adder_at(pins, index))
    }

    /// The pin for the bit `index` of the second number, for an adder created in a circuit
    /// that had `pins` pins.
    pub open spec fn input_b_pin(pins: nat, index: nat) -> Pin {
        FullAdder::b_pin(RippleCarryAdder::adder_at(pins, index))
    }

    /// The pin that shows the bit `index` of the sum, for an adder created in a circuit that
    /// had `pins` pins.
    pub open spec fn sum_pin(pins: nat, index: nat) -> Pin {
        FullAdder::sum_pin(RippleCarryAdder::adder_at(pins, index))
    }

    /// The pin that shows the overflow, for an adder of `width` bits created in a circuit
    /// that had `pins` pins.
    pub open spec fn overflow_pin(pins: nat, width: nat) -> Pin {
        FullAdder::carry_pin(RippleCarryAdder::adder_at(pins, (width - 1) as nat))
    }

    /// The circuit with `count` more full adders, one after the other.
    pub open spec fn adders_added(circuit: CircuitView, count: nat) -> CircuitView
        decreases count,
    {
        if count == 0 {
            circuit
        } else {
            FullAdder::added(RippleCarryAdder::adders_added(circuit, (count - 1) as nat))
        }
    }

    /// The connections that hand the carry of each full adder but the last to the next.
    pub open spec fn carry_nets(pins: nat, width: nat) -> Seq<(Pin, Pin)> {
        Seq::new(
            (width - 1) as nat,
            |i: int|
                (
                    FullAdder::carry_pin(RippleCarryAdder::adder_at(pins, i as nat)),
                    FullAdder::carry_in_pin(RippleCarryAdder::adder_at(pins, (i + 1) as nat)),
                ),
        )
    }

    /// All connections of the adder, in the order in which they are made: no carry comes in
    /// to the lowest bit, and each carry goes on to the next bit.
    pub open spec fn netlist(pins: nat, width: nat) -> Seq<(Pin, Pin)> {
        seq![
            (
                Constant::output_pin(pins),
                FullAdder::carry_in_pin(RippleCarryAdder::adder_at(pins, 0)),
            ),
        ] + RippleCarryAdder::carry_nets(pins, width)
    }

    /// The circuit with one more adder of `width` bits: a low rail, then the full adders from
    /// the lowest bit up, connected as the netlist says.
    #[verifier::opaque]
    pub open spec fn added(circuit: CircuitView, width: nat) -> CircuitView {
        RippleCarryAdder::adders_added(
            circuit.add_pin(DriveValue::Strong(false)),
            width,
        ).connect_each(RippleCarryAdder::netlist(circuit.pins.len(), width))
    }

    /// Whether `adders` are full adders of `circuit` that were created one after the other,
    /// at the record `first` and the pin `pins`.
    pub open spec fn each_at(
        adders: Seq<FullAdder>,
        circuit: CircuitView,
        first: nat,
        pins: nat,
    ) -> bool {
        forall|i: int|
            0 <= i < adders.len() ==> {
                &&& (#[trigger] adders[i]).wf(circuit)
                &&& adders[i].transistors() == transistor_range((first + 42 * i) as nat, 42)
                &&& adders[i].a() == FullAdder::a_pin((pins + 150 * i) as nat)
                &&& adders[i].b() == FullAdder::b_pin((pins + 150 * i) as nat)
                &&& adders[i].carry_in() == FullAdder::carry_in_pin((pins + 150 * i) as nat)
                &&& adders[i].sum() == FullAdder::sum_pin((pins + 150 * i) as nat)
                &&& adders[i].carry() == FullAdder::carry_pin((pins + 150 * i) as nat)
            }
    }

    /// Full adders created one after the other hold a range of transistors.
    pub proof fn lemma_each_is_range(
        adders: Seq<FullAdder>,
        circuit: CircuitView,
        first: nat,
        pins: nat,
    )
        requires
            RippleCarryAdder::each_at(adders, circuit, first, pins),
        ensures
            each_transistors(adders) == transistor_range(first, 42 * adders.len()),
        decreases adders.len(),
    {
        if adders.len() > 0 {
            let rest = adders.drop_last();
            assert forall|i: int| 0 <= i < rest.len() implies (#[trigger] rest[i])
                == adders[i] by {}
            RippleCarryAdder::lemma_each_is_range(rest, circuit, first, pins);
            assert(adders.last() == adders[adders.len() - 1]);
            lemma_transistor_range_concat(first, 42 * rest.len(), 42);
        } else {
            assert(each_transistors(adders) =~= transistor_range(first, 0));
        }
    }

    /// Creates the full adders of an adder of `width` bits, from the lowest bit up.
    fn new_adders(circuit: &mut Circuit, width: usize) -> (adders: Vec<FullAdder>)
        requires
            old(circuit)@.wf(),
        ensures
            adders.len() == width,
            final(circuit)@ == RippleCarryAdder::adders_added(old(circuit)@, width as nat),
            RippleCarryAdder::each_at(
                adders@,
                final(circuit)@,
                old(circuit)@.transistors.len(),
                old(circuit)@.pins.len(),
            ),
            final(circuit)@.wf(),
            final(circuit)@.pins.len() == old(circuit)@.pins.len() + 150 * width,
            final(circuit)@.transistors.len() == old(circuit)@.transistors.len() + 42 * width,
            old(circuit)@.transistors_kept_in(final(circuit)@),
            old(circuit)@.quiet() ==> final(circuit)@.quiet(),
    {
        let ghost first = old(circuit)@.transistors.len();
        let ghost pins = old(circuit)@.pins.len();
        let mut adders: Vec<FullAdder> = Vec::new();
        let mut i: usize = 0;
        while i < width
            invariant
                i <= width,
                adders.len() == i,
                first == old(circuit)@.transistors.len(),
                pins == old(circuit)@.pins.len(),
                circuit@ == RippleCarryAdder::adders_added(old(circuit)@, i as nat),
                RippleCarryAdder::each_at(adders@, circuit@, first, pins),
                circuit@.wf(),
                circuit@.pins.len() == pins + 150 * i,
                circuit@.transistors.len() == first + 42 * i,
                old(circuit)@.transistors_kept_in(circuit@),
                old(circuit)@.quiet() ==> circuit@.quiet(),
            decreases width - i,
        {
            let ghost before = circuit@;
            let ghost listed = adders@;
            let adder = FullAdder::new(circuit);
            adders.push(adder);
            proof {
                assert forall|k: int| 0 <= k < adders.len() implies {
                    &&& (#[trigger] adders@[k]).wf(circuit@)
                    &&& adders@[k].transistors() == transistor_range((first + 42 * k) as nat, 42)
                    &&& adders@[k].a() == FullAdder::a_pin((pins + 150 * k) as nat)
                    &&& adders@[k].b() == FullAdder::b_pin((pins + 150 * k) as nat)
                    &&& adders@[k].carry_in() == FullAdder::carry_in_pin((pins + 150 * k) as nat)
                    &&& adders@[k].sum() == FullAdder::sum_pin((pins + 150 * k) as nat)
                    &&& adders@[k].carry() == FullAdder::carry_pin((pins + 150 * k) as nat)
                } by {
                    if k < i {
                        assert(adders@[k] == listed[k]);
                        listed[k].lemma_wf_grows(before, circuit@);
                    }
                }
            }
            i += 1;
        }
        adders
    }

    /// Creates an adder of the given width, which must not be zero, connected to nothing.
    pub fn new(circuit: &mut Circuit, width: usize) -> (adder: RippleCarryAdder)
        requires
            old(circuit)@.wf(),
            width >= 1,
        ensures
            final(circuit)@ == RippleCarryAdder::added(old(circuit)@, width as nat),
            adder.input_a() == Seq::new(
                width as nat,
                |i: int| RippleCarryAdder::input_a_pin(old(circuit)@.pins.len(), i as nat),
            ),
            adder.input_b() == Seq::new(
                width as nat,
                |i: int| RippleCarryAdder::input_b_pin(old(circuit)@.pins.len(), i as nat),
            ),
            adder.sum() == Seq::new(
                width as nat,
                |i: int| RippleCarryAdder::sum_pin(old(circuit)@.pins.len(), i as nat),
            ),
            adder.overflow() == RippleCarryAdder::overflow_pin(
                old(circuit)@.pins.len(),
                width as nat,
            ),
            adder.transistors() == transistor_range(
                old(circuit)@.transistors.len(),
                RippleCarryAdder::transistor_count(width as nat),
            ),
            adder.wf(final(circuit)@),
            final(circuit)@.wf(),
            final(circuit)@.pins.len() == old(circuit)@.pins.len() + RippleCarryAdder::pin_count(
                width as nat,
            ),
            final(circuit)@.transistors.len() == old(circuit)@.transistors.len()
                + RippleCarryAdder::transistor_count(width as nat),
            old(circuit)@.transistors_kept_in(final(circuit)@),
            old(circuit)@.quiet() ==> final(circuit)@.quiet(),
    {
        reveal(RippleCarryAdder::added);
        let ghost pins = old(circuit)@.pins.len();
        let ghost first = old(circuit)@.transistors.len();
        let ghost n = width as nat;

        let strong_false = Constant::new_strong(circuit, false);
        let ghost with_rail = circuit@;
        let adders = RippleCarryAdder::new_adders(circuit, width);
        let ghost parts = circuit@;

        let mut input_a: Vec<Pin> = Vec::new();
        let mut input_b: Vec<Pin> = Vec::new();
        let mut sum: Vec<Pin> = Vec::new();
        let mut i: usize = 0;
        while i < width
            invariant
                i <= width,
                adders.len() == width,
                RippleCarryAdder::each_at(adders@, parts, first, pins + 1),
                input_a@ == Seq::new(
                    i as nat,
                    |k: int| RippleCarryAdder::input_a_pin(pins, k as nat),
                ),
                input_b@ == Seq::new(
                    i as nat,
                    |k: int| RippleCarryAdder::input_b_pin(pins, k as nat),
                ),
                sum@ == Seq::new(i as nat, |k: int| RippleCarryAdder::sum_pin(pins, k as nat)),
            decreases width - i,
        {
            input_a.push(adders[i].get_a());
            input_b.push(adders[i].get_b());
            sum.push(adders[i].get_sum());
            i += 1;
            proof {
                assert(input_a@ =~= Seq::new(
                    i as nat,
                    |k: int| RippleCarryAdder::input_a_pin(pins, k as nat),
                ));
                assert(input_b@ =~= Seq::new(
                    i as nat,
                    |k: int| RippleCarryAdder::input_b_pin(pins, k as nat),
                ));
                assert(sum@ =~= Seq::new(
                    i as nat,
                    |k: int| RippleCarryAdder::sum_pin(pins, k as nat),
                ));
            }
        }
        let overflow = adders[width - 1].get_carry();

        let mut netlist: Vec<(Pin, Pin)> = Vec::new();
        proof {
            adders@[0].lemma_pins(parts);
        }
        netlist.push((strong_false.get_output(), adders[0].get_carry_in()));
        let ghost rail = netlist@;
        let mut i: usize = 0;
        while i + 1 < width
            invariant
                i + 1 <= width,
                adders.len() == width,
                n == width,
                RippleCarryAdder::each_at(adders@, parts, first, pins + 1),
                parts.has_pairs(netlist@),
                netlist@ == rail + RippleCarryAdder::carry_nets(pins, n).subrange(0, i as int),
            decreases width - i,
        {
            proof {
                adders@[i as int].lemma_pins(parts);
                adders@[i + 1].lemma_pins(parts);
            }
            netlist.push((adders[i].get_carry(), adders[i + 1].get_carry_in()));
            i += 1;
            assert(netlist@ =~= rail + RippleCarryAdder::carry_nets(pins, n).subrange(0, i as int));
        }
        proof {
            assert(netlist@ =~= RippleCarryAdder::netlist(pins, n));
        }

        Pin::connect_each(circuit, &netlist);

        proof {
            strong_false.lemma_wf_grows(with_rail, circuit@);
            assert forall|k: int| 0 <= k < adders.len() implies (#[trigger] adders[k]).wf(
                circuit@,
            ) by {
                adders[k].lemma_wf_grows(parts, circuit@);
            }
            assert forall|k: int| 0 <= k < adders.len() implies circuit@.has_pin(
                (#[trigger] adders[k]).a(),
            ) && circuit@.has_pin(adders[k].b()) && circuit@.has_pin(adders[k].sum())
                && circuit@.has_pin(adders[k].carry()) by {
                adders[k].lemma_pins(circuit@);
            }
            RippleCarryAdder::lemma_each_is_range(adders@, parts, first, pins + 1);
            assert(Seq::<Transistor>::empty() + each_transistors(adders@) =~= each_transistors(
                adders@,
            ));
        }
        RippleCarryAdder { strong_false, adders, input_a, input_b, sum, overflow }
    }

    /// The pins for the bits of the first number, lowest bit first.
    pub fn get_input_a(&self) -> (pins: &Vec<Pin>)
        ensures
            pins@ == self.input_a(),
    {
        &self.input_a
    }

    /// The pins for the bits of the second number, lowest bit first.
    pub fn get_input_b(&self) -> (pins: &Vec<Pin>)
        ensures
            pins@ == self.input_b(),
    {
        &self.input_b
    }

    /// The pins that show the bits of the sum, lowest bit first.
    pub fn get_sum(&self) -> (pins: &Vec<Pin>)
        ensures
            pins@ == self.sum(),
    {
        &self.sum
    }

    /// The pin that shows whether the sum needs one more bit.
    pub fn get_overflow(&self) -> (pin: Pin)
        ensures
            pin == self.overflow(),
    {
        self.overflow
    }

    /// The pins of an adder of a circuit are pins of the circuit.
    pub proof fn lemma_pins(&self, circuit: CircuitView)
        requires
            self.wf(circuit),
        ensures
            forall|i: int|
                0 <= i < self.input_a().len() ==> circuit.has_pin(#[trigger] self.input_a()[i]),
            forall|i: int|
                0 <= i < self.input_b().len() ==> circuit.has_pin(#[trigger] self.input_b()[i]),
            forall|i: int| 0 <= i < self.sum().len() ==> circuit.has_pin(#[trigger] self.sum()[i]),
            circuit.has_pin(self.overflow()),
    {
    }
}

impl Device for RippleCarryAdder {
    closed spec fn transistors(&self) -> Seq<Transistor> {
        self.strong_false.transistors() + each_transistors(self.adders@)
    }

    closed spec fn wf(&self, circuit: CircuitView) -> bool {
        &&& self.strong_false.wf(circuit)
        &&& forall|i: int| 0 <= i < self.adders.len() ==> (#[trigger] self.adders[i]).wf(circuit)
        &&& forall|i: int|
            0 <= i < self.input_a.len() ==> circuit.has_pin(#[trigger] self.input_a[i])
        &&& forall|i: int|
            0 <= i < self.input_b.len() ==> circuit.has_pin(#[trigger] self.input_b[i])
        &&& forall|i: int| 0 <= i < self.sum.len() ==> circuit.has_pin(#[trigger] self.sum[i])
        &&& circuit.has_pin(self.overflow)
    }

    proof fn lemma_wf_grows(&self, before: CircuitView, after: CircuitView) {
        assert forall|i: int| 0 <= i < self.adders.len() implies (#[trigger] self.adders[i]).wf(
            after,
        ) by {
            self.adders[i].lemma_wf_grows(before, after);
        }
    }

    open spec fn type_text(&self) -> Seq<char> {
        "RippleCarryAdder"@
    }

    fn device_type(&self) -> (name: String) {
        "RippleCarryAdder".to_string()
    }

    fn pins(&self, circuit: &Circuit) -> (pins: Vec<(String, DeviceContainer<Pin>)>)
        ensures
            pins.len() == 4,
            pins[0].0@ == "input_a"@,
            pins[0].1 matches DeviceContainer::Multiple(listed) && listed@ == self.input_a(),
            pins[1].0@ == "input_b"@,
            pins[1].1 matches DeviceContainer::Multiple(listed) && listed@ == self.input_b(),
            pins[2].0@ == "sum"@,
            pins[2].1 matches DeviceContainer::Multiple(listed) && listed@ == self.sum(),
            pins[3].0@ == "overflow"@,
            pins[3].1 == DeviceContainer::Single(self.overflow()),
    {
        let mut pins: Vec<(String, DeviceContainer<Pin>)> = Vec::new();
        pins.push(multiple_pins("input_a", &self.input_a));
        pins.push(multiple_pins("input_b", &self.input_b));
        pins.push(multiple_pins("sum", &self.sum));
        pins.push(single_pin("overflow", self.overflow));
        pins
    }

    fn children(&self, circuit: &Circuit) -> (children: Vec<(String, DeviceContainer<AnyDevice>)>)
        ensures
            children.len() == 2,
            names_child(children[0], "strong_false"@, &self.strong_false(), circuit),
            names_children(children[1], "adders"@, self.adders(), circuit),
            children_transistors(children@) == self.transistors(),
    {
        let mut children: Vec<(String, DeviceContainer<AnyDevice>)> = Vec::new();
        add_child(&mut children, single_child("strong_false", &self.strong_false, circuit));
        add_child(&mut children, multiple_children("adders", &self.adders, circuit));
        children
    }

    fn as_any(&self, circuit: &Circuit) -> (device: AnyDevice)
        ensures
            device.transistor is None,
            device.pins.len() == 4,
            device.pins[0].0@ == "input_a"@,
            device.pins[0].1 matches DeviceContainer::Multiple(listed) && listed@ == self.input_a(),
            device.pins[1].0@ == "input_b"@,
            device.pins[1].1 matches DeviceContainer::Multiple(listed) && listed@ == self.input_b(),
            device.pins[2].0@ == "sum"@,
            device.pins[2].1 matches DeviceContainer::Multiple(listed) && listed@ == self.sum(),
            device.pins[3].0@ == "overflow"@,
            device.pins[3].1 == DeviceContainer::Single(self.overflow()),
            device.children.len() == 2,
            names_child(device.children[0], "strong_false"@, &self.strong_false(), circuit),
            names_children(device.children[1], "adders"@, self.adders(), circuit),
    {
        let device = AnyDevice::composite(
            self.device_type(),
            self.pins(circuit),
            self.children(circuit),
        );
        proof {
            device.lemma_composite_wf(circuit@);
        }
        device
    }
}

} // verus!
