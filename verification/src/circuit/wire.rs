//! Wires: the electrical nodes that join connected pins.

use crate::circuit::laws::lemma_connect_wires_wf;
use crate::circuit::lemmas::lemma_tally_total;
use crate::circuit::pin::Pin;
use crate::circuit::Circuit;
use crate::circuit::CircuitView;
use crate::circuit::WireState;
use crate::circuit::WireView;
use crate::value::drive_value::DriveValue;
use crate::value::drive_value_accumulator::DriveValueAccumulator;
use crate::value::logic_value::LogicValue;
use vstd::prelude::*;

verus! {

/// The electrical node that joins connected pins: a handle to a wire of a [`Circuit`].
#[derive(Clone, Copy, Debug, PartialEq, Eq, Structural)]
pub struct Wire {
    /// The position of the wire in its circuit.
    pub id: usize,
}

impl Wire {
    /// Creates a wire with no pin on it. It shows `HighImpedance` until a pin is attached
    /// with [`Wire::set_initial_pin`].
    pub fn new(circuit: &mut Circuit) -> (wire: Wire)
        ensures
            wire.id == old(circuit)@.wires.len(),
            final(circuit)@ == old(circuit)@.add_wire(),
    {
        let id = circuit.wires.len();
        circuit.wires.push(
            WireState {
                value: LogicValue::HighImpedance,
                pins: Vec::new(),
                drive_value_accumulator: DriveValueAccumulator::new(),
            },
        );
        assert(circuit@.wires =~= old(circuit)@.add_wire().wires);
        Wire { id }
    }

    /// Attaches to this wire, which has no pin yet, the pin it was created for, and takes the
    /// pin's drive into account.
    pub fn set_initial_pin(&self, circuit: &mut Circuit, pin: Pin)
        requires
            old(circuit)@.has_wire(*self),
            old(circuit)@.has_pin(pin),
            old(circuit)@.wires[self.id as int].pins.len() == 0,
            old(circuit)@.wires[self.id as int].tally.insert(old(circuit)@.drive(pin)).fits(),
        ensures
            final(circuit)@ == old(circuit)@.set_initial_pin(*self, pin),
    {
        let drive = pin.get_drive(circuit);
        circuit.wires[self.id].pins.push(pin);
        let value = circuit.wires[self.id].drive_value_accumulator.update(
            DriveValue::HighImpedance,
            drive,
        );
        circuit.wires[self.id].value = value;
        proof {
            assert(circuit.wires@[self.id as int]@.pins =~= seq![pin]);
            assert(circuit@.wires =~= old(circuit)@.set_initial_pin(*self, pin).wires);
        }
    }

    /// Reads the value the wire shows.
    pub fn read(&self, circuit: &Circuit) -> (value: LogicValue)
        requires
            circuit@.has_wire(*self),
        ensures
            value == circuit@.wires[self.id as int].value,
    {
        circuit.wires[self.id].value
    }

    /// Tells the wire that one of its pins changed its drive from `before` to `after`, and
    /// refreshes the value the wire shows.
    pub fn update_pin(&self, circuit: &mut Circuit, before: DriveValue, after: DriveValue)
        requires
            old(circuit)@.has_wire(*self),
            before != DriveValue::HighImpedance ==> old(circuit)@.wires[self.id as int].tally.count(
                before,
            ) > 0,
            old(circuit)@.wires[self.id as int].tally.update(before, after).fits(),
        ensures
            final(circuit)@ == old(circuit)@.update_pin(*self, before, after),
    {
        let value = circuit.wires[self.id].drive_value_accumulator.update(before, after);
        circuit.wires[self.id].value = value;
        assert(circuit@.wires =~= old(circuit)@.update_pin(*self, before, after).wires);
    }

    /// Lists the pins on the wire, in the order in which they joined it.
    pub fn get_all_pins(&self, circuit: &Circuit) -> (pins: Vec<Pin>)
        requires
            circuit@.has_wire(*self),
        ensures
            pins@ == circuit@.wires[self.id as int].pins,
    {
        let mut pins: Vec<Pin> = Vec::new();
        let mut i: usize = 0;
        while i < circuit.wires[self.id].pins.len()
            invariant
                self.id < circuit.wires@.len(),
                i <= circuit.wires@[self.id as int].pins@.len(),
                pins@ == circuit.wires@[self.id as int].pins@.subrange(0, i as int),
            decreases circuit.wires@[self.id as int].pins@.len() - i,
        {
            pins.push(circuit.wires[self.id].pins[i]);
            i += 1;
            assert(pins@ =~= circuit.wires@[self.id as int].pins@.subrange(0, i as int));
        }
        assert(pins@ =~= circuit@.wires[self.id as int].pins);
        pins
    }

    /// Merges `wire_2` into `wire_1`: every pin of `wire_2` is moved to `wire_1`, behind the
    /// pins `wire_1` had, and the drives of both are resolved together. `wire_2` is left with
    /// no pin. Merging a wire into itself does nothing.
    pub fn connect(circuit: &mut Circuit, wire_1: Wire, wire_2: Wire)
        requires
            old(circuit)@.wf(),
            old(circuit)@.has_wire(wire_1),
            old(circuit)@.has_wire(wire_2),
        ensures
            final(circuit)@ == old(circuit)@.connect_wires(wire_1, wire_2),
            final(circuit)@.wf(),
            final(circuit)@.pins.len() == old(circuit)@.pins.len(),
            final(circuit)@.transistors == old(circuit)@.transistors,
            old(circuit)@.quiet() ==> final(circuit)@.quiet(),
    {
        reveal(CircuitView::connect_wires);
        if wire_1.id == wire_2.id {
            return ;
        }
        let ghost before = circuit@;
        let ghost members = before.wires[wire_2.id as int].pins;
        assert(before.wire_wf(wire_2.id as int));
        assert(before.wire_wf(wire_1.id as int));

        let mut i: usize = 0;
        while i < circuit.wires[wire_2.id].pins.len()
            invariant
                wire_2.id < before.wires.len(),
                circuit.wires@.len() == before.wires.len(),
                before.pins.len() <= usize::MAX,
                circuit@.wires == before.wires,
                circuit@.transistors == before.transistors,
                members == before.wires[wire_2.id as int].pins,
                forall|k: int| 0 <= k < members.len() ==> before.has_pin(#[trigger] members[k]),
                i <= members.len(),
                circuit@.pins == before.redirect(members.subrange(0, i as int), wire_1),
            decreases members.len() - i,
        {
            let pin = circuit.wires[wire_2.id].pins[i];
            assert(pin == members[i as int]);
            pin.set_wire(circuit, wire_1);
            proof {
                let done = members.subrange(0, i as int);
                let more = members.subrange(0, i + 1);
                assert forall|q: Pin|
                    #[trigger] more.contains(q) <==> done.contains(q) || q == pin by {
                    if more.contains(q) {
                        let j = choose|j: int| 0 <= j < more.len() && more[j] == q;
                        if j < i {
                            assert(done[j] == q);
                        }
                    }
                    if done.contains(q) {
                        let j = choose|j: int| 0 <= j < done.len() && done[j] == q;
                        assert(more[j] == q);
                    }
                    if q == pin {
                        assert(more[i as int] == q);
                    }
                }
                assert(circuit@.pins =~= before.redirect(more, wire_1));
                assert(circuit@.wires.len() == circuit.wires@.len());
            }
            i += 1;
        }
        assert(members.subrange(0, i as int) =~= members);
        let ghost redirected = circuit@;

        let mut moved: Vec<Pin> = Vec::new();
        moved.append(&mut circuit.wires[wire_2.id].pins);
        circuit.wires[wire_1.id].pins.append(&mut moved);
        let other = circuit.wires[wire_2.id].drive_value_accumulator;
        proof {
            let first = before.wires[wire_1.id as int];
            let second = before.wires[wire_2.id as int];
            lemma_tally_total(before.pins, first.pins);
            lemma_tally_total(before.pins, second.pins);
            assert(redirected.wires[wire_1.id as int] == first);
            assert(redirected.wires[wire_2.id as int] == second);
            assert(circuit.wires@[wire_1.id as int].pins@ =~= first.pins + second.pins);
            assert(circuit.wires[wire_1.id as int].pins.len() <= usize::MAX);
        }
        let value = circuit.wires[wire_1.id].drive_value_accumulator.add(&other);
        circuit.wires[wire_1.id].value = value;
        circuit.wires[wire_2.id].drive_value_accumulator = DriveValueAccumulator::new();
        circuit.wires[wire_2.id].value = LogicValue::HighImpedance;
        proof {
            let after = before.connect_wires(wire_1, wire_2);
            assert(circuit.wires@[wire_2.id as int]@.pins =~= WireView::empty().pins);
            assert(circuit@.wires =~= after.wires);
            assert(circuit@.pins =~= after.pins);
            lemma_connect_wires_wf(before, wire_1, wire_2);
        }
    }
}

} // verus!
