//! The transistor, the only active primitive.

use crate::circuit::laws::lemma_connected_contains_self;
use crate::circuit::laws::lemma_set_drive_wf;
use crate::circuit::laws::lemma_set_error_hysteresis_wf;
use crate::circuit::pin::Pin;
use crate::circuit::Circuit;
use crate::circuit::CircuitView;
use crate::circuit::TransistorState;
use crate::device::each_transistors;
use crate::device::single_pin;
use crate::device::transistor_range;
use crate::device::AnyDevice;
use crate::device::Device;
use crate::device::DeviceContainer;
use crate::value::drive_value::DriveValue;
use crate::value::logic_value::LogicValue;
use vstd::prelude::*;

verus! {

/// An NMOS or PMOS transistor: a handle to a transistor record of a [`Circuit`]. It owns three
/// pins, and it alone decides what its drain drives.
#[derive(Clone, Copy, Debug, PartialEq, Eq, Structural)]
pub struct Transistor {
    /// The position of the transistor's record in its circuit.
    pub index: usize,
}

impl Transistor {
    /// Whether this is a transistor of `circuit`.
    pub open spec fn is_in(self, circuit: CircuitView) -> bool {
        self.index < circuit.transistors.len()
    }

    /// The record of this transistor in `circuit`.
    pub open spec fn state(self, circuit: CircuitView) -> TransistorState {
        circuit.transistors[self.index as int]
    }

    /// What a tick of this transistor decides its drain should show next, from what its gate and
    /// source read now. With its gate driven to the activation level the drain follows the
    /// source; with its gate driven the other way the drain is cut off. With its gate
    /// undriven or in error, the first tick decides nothing (`None`), and any tick after it
    /// decides `Error`.
    pub open spec fn next_drain(self, circuit: CircuitView) -> Option<LogicValue> {
        let state = self.state(circuit);
        match circuit.read(state.gate) {
            LogicValue::Driven(drive) => Some(
                if drive == state.activation {
                    circuit.read(state.source)
                } else {
                    LogicValue::HighImpedance
                },
            ),
            _ => if state.error_hysteresis {
                Some(LogicValue::Error)
            } else {
                None
            },
        }
    }

    /// Whether a tick of this transistor reports a change: the drain is to show something
    /// other than it drives now, or the tick was the first with an undriven gate.
    pub open spec fn tick_changed(self, circuit: CircuitView) -> bool {
        match self.next_drain(circuit) {
            Some(next) => next != circuit.drive(self.state(circuit).drain).logic(),
            None => true,
        }
    }

    /// The hysteresis flag after a tick of this transistor: set exactly while its gate is
    /// undriven or in error.
    pub open spec fn next_error_hysteresis(self, circuit: CircuitView) -> bool {
        !(circuit.read(self.state(circuit).gate) is Driven)
    }

    /// The circuit after a tick of this transistor: the hysteresis flag is brought up to
    /// date, and what was decided for the drain is recorded as its next drive.
    pub open spec fn ticked(self, circuit: CircuitView) -> CircuitView {
        let flagged = circuit.set_error_hysteresis(
            self.index as int,
            self.next_error_hysteresis(circuit),
        );
        match self.next_drain(circuit) {
            Some(next) => flagged.set_drive(self.state(circuit).drain, next.strong()),
            None => flagged,
        }
    }

    /// The number of pins that a transistor adds to a circuit.
    pub open spec fn pin_count() -> nat {
        3
    }

    /// The number of transistor records that a transistor adds to a circuit.
    pub open spec fn transistor_count() -> nat {
        1
    }

    /// The source pin of a transistor created in a circuit that had `pins` pins.
    pub open spec fn source_pin(pins: nat) -> Pin {
        Pin { id: pins as usize }
    }

    /// The pin that decides whether a transistor conducts, for a transistor created in a
    /// circuit that had `pins` pins.
    pub open spec fn gate_pin(pins: nat) -> Pin {
        Pin { id: (pins + 1) as usize }
    }

    /// The drain pin of a transistor created in a circuit that had `pins` pins.
    pub open spec fn drain_pin(pins: nat) -> Pin {
        Pin { id: (pins + 2) as usize }
    }

    /// The circuit with one more transistor of the given activation level, on three new
    /// pins: source, gate and drain, in this order.
    #[verifier::opaque]
    pub open spec fn added(circuit: CircuitView, activation: bool) -> CircuitView {
        let with_pins = circuit.add_pin(DriveValue::HighImpedance).add_pin(
            DriveValue::HighImpedance,
        ).add_pin(DriveValue::HighImpedance);
        CircuitView {
            transistors: circuit.transistors.push(
                TransistorState {
                    source: Transistor::source_pin(circuit.pins.len()),
                    gate: Transistor::gate_pin(circuit.pins.len()),
                    drain: Transistor::drain_pin(circuit.pins.len()),
                    activation,
                    error_hysteresis: false,
                },
            ),
            ..with_pins
        }
    }

    /// The circuit with `count` more transistors of the given activation level, one after the
    /// other.
    pub open spec fn added_each(circuit: CircuitView, count: nat, activation: bool) -> CircuitView
        decreases count,
    {
        if count == 0 {
            circuit
        } else {
            Transistor::added(
                Transistor::added_each(circuit, (count - 1) as nat, activation),
                activation,
            )
        }
    }

    /// Whether `transistors` are transistors of `circuit` that were created one after the
    /// other, at the record `first` and the pin `pins`.
    pub open spec fn each_at(
        transistors: Seq<Transistor>,
        circuit: CircuitView,
        first: nat,
        pins: nat,
    ) -> bool {
        forall|i: int|
            0 <= i < transistors.len() ==> {
                &&& (#[trigger] transistors[i]).index == first + i
                &&& transistors[i].is_in(circuit)
                &&& transistors[i].state(circuit).source == Transistor::source_pin(
                    (pins + 3 * i) as nat,
                )
                &&& transistors[i].state(circuit).gate == Transistor::gate_pin(
                    (pins + 3 * i) as nat,
                )
                &&& transistors[i].state(circuit).drain == Transistor::drain_pin(
                    (pins + 3 * i) as nat,
                )
            }
    }

    /// Transistors created one after the other are a range of transistors.
    pub proof fn lemma_each_is_range(
        transistors: Seq<Transistor>,
        circuit: CircuitView,
        first: nat,
        pins: nat,
    )
        requires
            Transistor::each_at(transistors, circuit, first, pins),
        ensures
            each_transistors(transistors) == transistor_range(first, transistors.len()),
        decreases transistors.len(),
    {
        if transistors.len() > 0 {
            let rest = transistors.drop_last();
            assert forall|i: int| 0 <= i < rest.len() implies (#[trigger] rest[i])
                == transistors[i] by {}
            Transistor::lemma_each_is_range(rest, circuit, first, pins);
            assert(transistors.last() == transistors[transistors.len() - 1]);
            assert(each_transistors(transistors) =~= transistor_range(first, transistors.len()));
        } else {
            assert(each_transistors(transistors) =~= transistor_range(first, transistors.len()));
        }
    }

    /// Creates `count` transistors of the given activation level, one after the other, each
    /// connected to nothing.
    pub fn new_each(circuit: &mut Circuit, count: usize, activation: bool) -> (transistors: Vec<
        Transistor,
    >)
        requires
            old(circuit)@.wf(),
        ensures
            transistors.len() == count,
            final(circuit)@ == Transistor::added_each(old(circuit)@, count as nat, activation),
            Transistor::each_at(
                transistors@,
                final(circuit)@,
                old(circuit)@.transistors.len(),
                old(circuit)@.pins.len(),
            ),
            final(circuit)@.wf(),
            final(circuit)@.pins.len() == old(circuit)@.pins.len() + 3 * count,
            final(circuit)@.transistors.len() == old(circuit)@.transistors.len() + count,
            old(circuit)@.transistors_kept_in(final(circuit)@),
            old(circuit)@.quiet() ==> final(circuit)@.quiet(),
    {
        let mut transistors: Vec<Transistor> = Vec::new();
        let mut i: usize = 0;
        while i < count
            invariant
                i <= count,
                transistors.len() == i,
                circuit@ == Transistor::added_each(old(circuit)@, i as nat, activation),
                Transistor::each_at(
                    transistors@,
                    circuit@,
                    old(circuit)@.transistors.len(),
                    old(circuit)@.pins.len(),
                ),
                circuit@.wf(),
                circuit@.pins.len() == old(circuit)@.pins.len() + 3 * i,
                circuit@.transistors.len() == old(circuit)@.transistors.len() + i,
                old(circuit)@.transistors_kept_in(circuit@),
                old(circuit)@.quiet() ==> circuit@.quiet(),
            decreases count - i,
        {
            let ghost before = transistors@;
            let transistor = Transistor::new(circuit, activation);
            transistors.push(transistor);
            proof {
                assert forall|k: int| 0 <= k < transistors.len() implies {
                    &&& (#[trigger] transistors@[k]).index == old(circuit)@.transistors.len() + k
                    &&& transistors@[k].is_in(circuit@)
                    &&& transistors@[k].state(circuit@).source == Transistor::source_pin(
                        (old(circuit)@.pins.len() + 3 * k) as nat,
                    )
                    &&& transistors@[k].state(circuit@).gate == Transistor::gate_pin(
                        (old(circuit)@.pins.len() + 3 * k) as nat,
                    )
                    &&& transistors@[k].state(circuit@).drain == Transistor::drain_pin(
                        (old(circuit)@.pins.len() + 3 * k) as nat,
                    )
                } by {
                    if k < i {
                        assert(transistors@[k] == before[k]);
                    }
                }
            }
            i += 1;
        }
        transistors
    }

    /// Creates an NMOS transistor, which conducts while its gate is driven high, connected
    /// to nothing.
    pub fn new_nmos(circuit: &mut Circuit) -> (transistor: Transistor)
        requires
            old(circuit)@.wf(),
        ensures
            transistor.index == old(circuit)@.transistors.len(),
            final(circuit)@ == Transistor::added(old(circuit)@, true),
            final(circuit)@.pins.len() == old(circuit)@.pins.len() + 3,
            final(circuit)@.transistors.len() == old(circuit)@.transistors.len() + 1,
            old(circuit)@.transistors_kept_in(final(circuit)@),
            transistor.state(final(circuit)@) == (TransistorState {
                source: Transistor::source_pin(old(circuit)@.pins.len()),
                gate: Transistor::gate_pin(old(circuit)@.pins.len()),
                drain: Transistor::drain_pin(old(circuit)@.pins.len()),
                activation: true,
                error_hysteresis: false,
            }),
            final(circuit)@.wf(),
            old(circuit)@.quiet() ==> final(circuit)@.quiet(),
    {
        Transistor::new(circuit, true)
    }

    /// Creates a PMOS transistor, which conducts while its gate is driven low, connected to
    /// nothing.
    pub fn new_pmos(circuit: &mut Circuit) -> (transistor: Transistor)
        requires
            old(circuit)@.wf(),
        ensures
            transistor.index == old(circuit)@.transistors.len(),
            final(circuit)@ == Transistor::added(old(circuit)@, false),
            final(circuit)@.pins.len() == old(circuit)@.pins.len() + 3,
            final(circuit)@.transistors.len() == old(circuit)@.transistors.len() + 1,
            old(circuit)@.transistors_kept_in(final(circuit)@),
            transistor.state(final(circuit)@) == (TransistorState {
                source: Transistor::source_pin(old(circuit)@.pins.len()),
                gate: Transistor::gate_pin(old(circuit)@.pins.len()),
                drain: Transistor::drain_pin(old(circuit)@.pins.len()),
                activation: false,
                error_hysteresis: false,
            }),
            final(circuit)@.wf(),
            old(circuit)@.quiet() ==> final(circuit)@.quiet(),
    {
        Transistor::new(circuit, false)
    }

    /// The activation level of the transistor: `true` for NMOS, `false` for PMOS.
    pub fn get_activation(&self, circuit: &Circuit) -> (activation: bool)
        requires
            self.is_in(circuit@),
        ensures
            activation == self.state(circuit@).activation,
    {
        circuit.transistor(self.index).activation
    }

    /// The source pin of the transistor.
    pub fn get_source(&self, circuit: &Circuit) -> (pin: Pin)
        requires
            self.is_in(circuit@),
        ensures
            pin == self.state(circuit@).source,
    {
        circuit.transistor(self.index).source
    }

    /// The pin that decides whether the transistor conducts.
    pub fn get_gate(&self, circuit: &Circuit) -> (pin: Pin)
        requires
            self.is_in(circuit@),
        ensures
            pin == self.state(circuit@).gate,
    {
        circuit.transistor(self.index).gate
    }

    /// The drain pin of the transistor.
    pub fn get_drain(&self, circuit: &Circuit) -> (pin: Pin)
        requires
            self.is_in(circuit@),
        ensures
            pin == self.state(circuit@).drain,
    {
        circuit.transistor(self.index).drain
    }

    /// Decides from the present readings of gate and source what the drain drives next, and
    /// records it as the drain's next drive. An undriven gate is let pass for one tick before
    /// it makes the drain `Error`. Returns whether the drain is to change, or its gate was
    /// found undriven for the first time.
    pub fn tick(&self, circuit: &mut Circuit) -> (changed: bool)
        requires
            old(circuit)@.wf(),
            self.is_in(old(circuit)@),
            self.next_drain(old(circuit)@) is Some ==> old(circuit)@.pending(
                self.state(old(circuit)@).drain,
            ) is None,
        ensures
            final(circuit)@ == self.ticked(old(circuit)@),
            changed == self.tick_changed(old(circuit)@),
            final(circuit)@.wf(),
            final(circuit)@.pins.len() == old(circuit)@.pins.len(),
            final(circuit)@.transistors.len() == old(circuit)@.transistors.len(),
    {
        let state = circuit.transistor(self.index);
        proof {
            assert(circuit@.transistor_wf(self.index as int));
            lemma_connected_contains_self(circuit@, state.gate);
            lemma_connected_contains_self(circuit@, state.source);
            lemma_set_error_hysteresis_wf(
                circuit@,
                self.index as int,
                self.next_error_hysteresis(circuit@),
            );
        }
        let current = LogicValue::from(state.drain.get_drive(circuit));
        let next = match state.gate.read(circuit) {
            LogicValue::Driven(drive) => {
                circuit.set_error_hysteresis(self.index, false);
                if drive == state.activation {
                    state.source.read(circuit)
                } else {
                    LogicValue::HighImpedance
                }
            },
            _ => {
                if !state.error_hysteresis {
                    circuit.set_error_hysteresis(self.index, true);
                    return true;
                } else {
                    proof {
                        assert(circuit@
                            =~= circuit@.set_error_hysteresis(self.index as int, true)) by {
                            assert(circuit@.transistors =~= circuit@.set_error_hysteresis(
                                self.index as int,
                                true,
                            ).transistors);
                        }
                    }
                    LogicValue::Error
                }
            },
        };
        proof {
            lemma_set_drive_wf(circuit@, state.drain, next.strong());
        }
        state.drain.set_drive(circuit, DriveValue::from(next));
        current != next
    }

    /// Creates a transistor of the given activation level on three new pins, all at high
    /// impedance.
    pub fn new(circuit: &mut Circuit, activation: bool) -> (transistor: Transistor)
        requires
            old(circuit)@.wf(),
        ensures
            transistor.index == old(circuit)@.transistors.len(),
            final(circuit)@ == Transistor::added(old(circuit)@, activation),
            final(circuit)@.pins.len() == old(circuit)@.pins.len() + 3,
            final(circuit)@.transistors.len() == old(circuit)@.transistors.len() + 1,
            old(circuit)@.transistors_kept_in(final(circuit)@),
            transistor.state(final(circuit)@) == (TransistorState {
                source: Transistor::source_pin(old(circuit)@.pins.len()),
                gate: Transistor::gate_pin(old(circuit)@.pins.len()),
                drain: Transistor::drain_pin(old(circuit)@.pins.len()),
                activation: activation,
                error_hysteresis: false,
            }),
            final(circuit)@.wf(),
            old(circuit)@.quiet() ==> final(circuit)@.quiet(),
    {
        reveal(Transistor::added);
        let source = Pin::new(circuit, DriveValue::HighImpedance);
        let gate = Pin::new(circuit, DriveValue::HighImpedance);
        let drain = Pin::new(circuit, DriveValue::HighImpedance);
        let ghost with_pins = circuit@;
        let index = circuit.add_transistor(
            TransistorState { source, gate, drain, activation, error_hysteresis: false },
        );
        proof {
            let after = circuit@;
            assert forall|p: int| 0 <= p < after.pins.len() implies #[trigger] after.pin_wf(p) by {
                assert(with_pins.pin_wf(p));
            }
            assert forall|w: int| 0 <= w < after.wires.len() implies
                #[trigger] after.wire_wf(w) by {
                assert(with_pins.wire_wf(w));
            }
            assert forall|t: int| 0 <= t < after.transistors.len() implies
                #[trigger] after.transistor_wf(
                t,
            ) by {
                if t < with_pins.transistors.len() {
                    assert(with_pins.transistor_wf(t));
                    assert(old(circuit)@.transistor_wf(t));
                } else {
                    assert forall|u: int| 0 <= u < after.transistors.len() && u != t implies (
                    #[trigger] after.transistors[u]).drain != after.transistors[t].drain by {
                        assert(old(circuit)@.transistor_wf(u));
                    }
                }
            }
        }
        Transistor { index }
    }
}

impl Device for Transistor {
    open spec fn transistors(&self) -> Seq<Transistor> {
        seq![*self]
    }

    open spec fn wf(&self, circuit: CircuitView) -> bool {
        self.is_in(circuit)
    }

    proof fn lemma_wf_grows(&self, before: CircuitView, after: CircuitView) {
    }

    open spec fn type_text(&self) -> Seq<char> {
        "Transistor"@
    }

    fn device_type(&self) -> (name: String) {
        "Transistor".to_string()
    }

    fn pins(&self, circuit: &Circuit) -> (pins: Vec<(String, DeviceContainer<Pin>)>)
        ensures
            pins.len() == 3,
            pins[0].0@ == "source"@,
            pins[0].1 == DeviceContainer::Single(self.state(circuit@).source),
            pins[1].0@ == "gate"@,
            pins[1].1 == DeviceContainer::Single(self.state(circuit@).gate),
            pins[2].0@ == "drain"@,
            pins[2].1 == DeviceContainer::Single(self.state(circuit@).drain),
    {
        proof {
            assert(circuit@.transistor_wf(self.index as int));
        }
        let mut pins: Vec<(String, DeviceContainer<Pin>)> = Vec::new();
        pins.push(single_pin("source", self.get_source(circuit)));
        pins.push(single_pin("gate", self.get_gate(circuit)));
        pins.push(single_pin("drain", self.get_drain(circuit)));
        pins
    }

    fn children(&self, circuit: &Circuit) -> (children: Vec<(String, DeviceContainer<AnyDevice>)>)
        ensures
            children.len() == 0,
    {
        Vec::new()
    }

    fn as_any(&self, circuit: &Circuit) -> (device: AnyDevice)
        ensures
            device.pins.len() == 3,
            device.pins[0].0@ == "source"@,
            device.pins[0].1 == DeviceContainer::Single(self.state(circuit@).source),
            device.pins[1].0@ == "gate"@,
            device.pins[1].1 == DeviceContainer::Single(self.state(circuit@).gate),
            device.pins[2].0@ == "drain"@,
            device.pins[2].1 == DeviceContainer::Single(self.state(circuit@).drain),
            device.children.len() == 0,
            device.transistor == Some(*self),
    {
        let device = AnyDevice {
            device_type: self.device_type(),
            pins: self.pins(circuit),
            children: self.children(circuit),
            transistor: Some(*self),
        };
        proof {
            assert(device.transistors() =~= seq![*self]);
        }
        device
    }
}

} // verus!
