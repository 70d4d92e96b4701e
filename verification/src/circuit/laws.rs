//! The laws of the fabric: every operation keeps a circuit well-formed, what a pin reads is
//! what the drives on its wire resolve to, and connecting is idempotent.

use crate::circuit::lemmas::lemma_tally_change;
use crate::circuit::lemmas::lemma_tally_concat;
use crate::circuit::lemmas::lemma_tally_frame;
use crate::circuit::lemmas::lemma_tally_resolves;
use crate::circuit::lemmas::lemma_tally_total;
use crate::circuit::model::tally_of;
use crate::circuit::pin::Pin;
use crate::circuit::wire::Wire;
use crate::circuit::CircuitView;
use crate::value::drive_value::DriveValue;
use crate::value::drive_value_accumulator::Tally;
use vstd::prelude::*;

verus! {

/// In a well-formed circuit, what a pin reads is what the drives of the pins connected to it
/// resolve to.
pub proof fn lemma_read_is_resolved(circuit: CircuitView, pin: Pin)
    requires
        circuit.wf(),
        circuit.has_pin(pin),
    ensures
        circuit.read(pin) == circuit.resolved(pin),
        circuit.read(pin) == circuit.wires[circuit.wire_of(pin).id as int].tally.resolve(),
{
    assert(circuit.pin_wf(pin.id as int));
    assert(circuit.wire_wf(circuit.wire_of(pin).id as int));
    lemma_tally_resolves(circuit.pins, circuit.connected(pin));
}

/// In a well-formed circuit, every pin is among the pins connected to it.
pub proof fn lemma_connected_contains_self(circuit: CircuitView, pin: Pin)
    requires
        circuit.wf(),
        circuit.has_pin(pin),
    ensures
        circuit.has_wire(circuit.wire_of(pin)),
        circuit.connected(pin).contains(pin),
{
    assert(circuit.pin_wf(pin.id as int));
}

/// In a well-formed circuit, the pins connected to a pin are pins of the circuit, sit on the
/// same wire, and are connected to the same pins.
pub proof fn lemma_connected_is_shared(circuit: CircuitView, pin: Pin, i: int)
    requires
        circuit.wf(),
        circuit.has_pin(pin),
        0 <= i < circuit.connected(pin).len(),
    ensures
        circuit.has_pin(circuit.connected(pin)[i]),
        circuit.wire_of(circuit.connected(pin)[i]) == circuit.wire_of(pin),
        circuit.connected(circuit.connected(pin)[i]) == circuit.connected(pin),
        circuit.read(circuit.connected(pin)[i]) == circuit.read(pin),
{
    assert(circuit.pin_wf(pin.id as int));
    assert(circuit.wire_wf(circuit.wire_of(pin).id as int));
}

/// Adding a pin keeps a circuit well-formed.
pub proof fn lemma_add_pin_wf(circuit: CircuitView, initial_value: DriveValue)
    requires
        circuit.wf(),
        circuit.pins.len() < usize::MAX,
        circuit.wires.len() < usize::MAX,
    ensures
        circuit.add_pin(initial_value).wf(),
{
    let after = circuit.add_pin(initial_value);
    let pin = Pin { id: circuit.pins.len() as usize };
    let wire = Wire { id: circuit.wires.len() as usize };
    assert forall|p: int| 0 <= p < after.pins.len() implies #[trigger] after.pin_wf(p) by {
        if p < circuit.pins.len() {
            assert(circuit.pin_wf(p));
        } else {
            assert(after.wires[wire.id as int].pins[0] == pin);
        }
    }
    assert forall|w: int| 0 <= w < after.wires.len() implies #[trigger] after.wire_wf(w) by {
        if w < circuit.wires.len() {
            assert(circuit.wire_wf(w));
            lemma_tally_frame(circuit.pins, after.pins, circuit.wires[w].pins);
        } else {
            let members = after.wires[w].pins;
            assert(members.drop_last() =~= Seq::empty());
            assert(tally_of(after.pins, members.drop_last()) == Tally::empty());
        }
    }
    assert forall|t: int| 0 <= t < after.transistors.len() implies #[trigger] after.transistor_wf(
        t,
    ) by {
        assert(circuit.transistor_wf(t));
    }
}

/// Recording a next drive keeps a circuit well-formed.
pub proof fn lemma_set_drive_wf(circuit: CircuitView, pin: Pin, to: DriveValue)
    requires
        circuit.wf(),
        circuit.has_pin(pin),
    ensures
        circuit.set_drive(pin, to).wf(),
{
    let after = circuit.set_drive(pin, to);
    assert forall|p: int| 0 <= p < after.pins.len() implies #[trigger] after.pin_wf(p) by {
        assert(circuit.pin_wf(p));
    }
    assert forall|w: int| 0 <= w < after.wires.len() implies #[trigger] after.wire_wf(w) by {
        assert(circuit.wire_wf(w));
        lemma_tally_frame(circuit.pins, after.pins, circuit.wires[w].pins);
    }
    assert forall|t: int| 0 <= t < after.transistors.len() implies #[trigger] after.transistor_wf(
        t,
    ) by {
        assert(circuit.transistor_wf(t));
    }
}

/// Changing a hysteresis flag keeps a circuit well-formed.
pub proof fn lemma_set_error_hysteresis_wf(circuit: CircuitView, t: int, error_hysteresis: bool)
    requires
        circuit.wf(),
        0 <= t < circuit.transistors.len(),
    ensures
        circuit.set_error_hysteresis(t, error_hysteresis).wf(),
{
    let after = circuit.set_error_hysteresis(t, error_hysteresis);
    assert forall|p: int| 0 <= p < after.pins.len() implies #[trigger] after.pin_wf(p) by {
        assert(circuit.pin_wf(p));
    }
    assert forall|w: int| 0 <= w < after.wires.len() implies #[trigger] after.wire_wf(w) by {
        assert(circuit.wire_wf(w));
    }
    assert forall|u: int| 0 <= u < after.transistors.len() implies #[trigger] after.transistor_wf(
        u,
    ) by {
        assert(circuit.transistor_wf(u));
        assert forall|v: int| 0 <= v < after.transistors.len() && v != u implies (
        #[trigger] after.transistors[v]).drain != after.transistors[u].drain by {
            assert(circuit.transistors[v].drain != circuit.transistors[u].drain);
        }
    }
}

/// When a pin of a well-formed circuit is about to change its drive, its wire has counted
/// the old drive, and the counts after the change are no more than the pins on the wire.
pub proof fn lemma_tick_pin_fits(circuit: CircuitView, pin: Pin)
    requires
        circuit.wf(),
        circuit.has_pin(pin),
        circuit.tick_pin_changed(pin),
    ensures
        circuit.has_wire(circuit.wire_of(pin)),
        circuit.drive(pin) != DriveValue::HighImpedance ==> circuit.wires[circuit.wire_of(
            pin,
        ).id as int].tally.count(circuit.drive(pin)) > 0,
        circuit.wires[circuit.wire_of(pin).id as int].tally.update(
            circuit.drive(pin),
            circuit.pending(pin).unwrap(),
        ).total() <= circuit.connected(pin).len(),
{
    let after = circuit.tick_pin(pin);
    let w = circuit.wire_of(pin).id as int;
    let members = circuit.wires[w].pins;
    assert(circuit.pin_wf(pin.id as int));
    assert(circuit.wire_wf(w));
    let k = choose|k: int| 0 <= k < members.len() && members[k] == pin;
    assert forall|i: int| 0 <= i < members.len() && i != k implies circuit.pins[(
    #[trigger] members[i]).id as int].current_drive
        == after.pins[members[i].id as int].current_drive by {
        assert(members[i] != members[k]);
    }
    lemma_tally_change(circuit.pins, after.pins, members, k);
    lemma_tally_total(after.pins, members);
}

/// A tick of a pin keeps a circuit well-formed.
pub proof fn lemma_tick_pin_wf(circuit: CircuitView, pin: Pin)
    requires
        circuit.wf(),
        circuit.has_pin(pin),
    ensures
        circuit.tick_pin(pin).wf(),
{
    let after = circuit.tick_pin(pin);
    if circuit.pending(pin) is Some {
        let own = circuit.wire_of(pin).id as int;
        assert(circuit.pin_wf(pin.id as int));
        assert forall|p: int| 0 <= p < after.pins.len() implies #[trigger] after.pin_wf(p) by {
            assert(circuit.pin_wf(p));
        }
        assert forall|w: int| 0 <= w < after.wires.len() implies #[trigger] after.wire_wf(w) by {
            assert(circuit.wire_wf(w));
            let members = circuit.wires[w].pins;
            if w == own {
                let k = choose|k: int| 0 <= k < members.len() && members[k] == pin;
                assert forall|i: int| 0 <= i < members.len() && i != k implies circuit.pins[(
                #[trigger] members[i]).id as int].current_drive
                    == after.pins[members[i].id as int].current_drive by {
                    assert(members[i] != members[k]);
                }
                lemma_tally_change(circuit.pins, after.pins, members, k);
            } else {
                assert forall|i: int| 0 <= i < members.len() implies circuit.pins[(
                #[trigger] members[i]).id as int].current_drive
                    == after.pins[members[i].id as int].current_drive by {
                    assert(circuit.wire_of(members[i]).id == w);
                }
                lemma_tally_frame(circuit.pins, after.pins, members);
            }
        }
        assert forall|t: int| 0 <= t < after.transistors.len() implies
            #[trigger] after.transistor_wf(
            t,
        ) by {
            assert(circuit.transistor_wf(t));
        }
    }
}

/// Merging two wires keeps a circuit well-formed.
pub proof fn lemma_connect_wires_wf(circuit: CircuitView, wire_1: Wire, wire_2: Wire)
    requires
        circuit.wf(),
        circuit.has_wire(wire_1),
        circuit.has_wire(wire_2),
    ensures
        circuit.connect_wires(wire_1, wire_2).wf(),
{
    reveal(CircuitView::connect_wires);
    let after = circuit.connect_wires(wire_1, wire_2);
    if wire_1 != wire_2 {
        let w1 = wire_1.id as int;
        let w2 = wire_2.id as int;
        let first = circuit.wires[w1].pins;
        let second = circuit.wires[w2].pins;
        assert(circuit.wire_wf(w1));
        assert(circuit.wire_wf(w2));
        assert forall|p: int| 0 <= p < after.pins.len() implies #[trigger] after.pin_wf(p) by {
            assert(circuit.pin_wf(p));
            let q = Pin { id: p as usize };
            let old_members = circuit.wires[circuit.pins[p].wire.id as int].pins;
            let i = choose|i: int| 0 <= i < old_members.len() && old_members[i] == q;
            if second.contains(q) {
                let j = choose|j: int| 0 <= j < second.len() && second[j] == q;
                assert((first + second)[first.len() + j] == q);
            } else if circuit.pins[p].wire.id == w1 {
                assert((first + second)[i] == q);
            } else {
                assert(circuit.pins[p].wire.id != w2);
            }
        }
        assert forall|w: int| 0 <= w < after.wires.len() implies #[trigger] after.wire_wf(w) by {
            assert(circuit.wire_wf(w));
            let members = after.wires[w].pins;
            if w == w2 {
                assert(members =~= Seq::empty());
            } else if w == w1 {
                assert forall|i: int| 0 <= i < members.len() implies after.has_pin(
                    #[trigger] members[i],
                ) && after.wire_of(members[i]).id == w by {
                    if i < first.len() {
                        assert(members[i] == first[i]);
                        assert(circuit.wire_of(first[i]).id == w1);
                        if second.contains(first[i]) {
                            let j = choose|j: int| 0 <= j < second.len() && second[j] == first[i];
                            assert(circuit.wire_of(second[j]).id == w2);
                        }
                    } else {
                        assert(members[i] == second[i - first.len()]);
                    }
                }
                assert forall|i: int, j: int|
                    0 <= i < members.len() && 0 <= j < members.len() && i != j implies members[i]
                    != members[j] by {
                    if i < first.len() {
                        assert(members[i] == first[i]);
                        assert(circuit.wire_of(first[i]).id == w1);
                    } else {
                        assert(members[i] == second[i - first.len()]);
                        assert(circuit.wire_of(second[i - first.len()]).id == w2);
                    }
                    if j < first.len() {
                        assert(members[j] == first[j]);
                        assert(circuit.wire_of(first[j]).id == w1);
                    } else {
                        assert(members[j] == second[j - first.len()]);
                        assert(circuit.wire_of(second[j - first.len()]).id == w2);
                    }
                }
                lemma_tally_concat(circuit.pins, first, second);
                assert forall|i: int| 0 <= i < members.len() implies circuit.pins[(
                #[trigger] members[i]).id as int].current_drive
                    == after.pins[members[i].id as int].current_drive by {
                    if i < first.len() {
                        assert(members[i] == first[i]);
                    } else {
                        assert(members[i] == second[i - first.len()]);
                    }
                }
                lemma_tally_frame(circuit.pins, after.pins, members);
            } else {
                assert forall|i: int| 0 <= i < members.len() implies after.has_pin(
                    #[trigger] members[i],
                ) && after.wire_of(members[i]).id == w by {
                    assert(circuit.wire_of(members[i]).id == w);
                    if second.contains(members[i]) {
                        let j = choose|j: int| 0 <= j < second.len() && second[j] == members[i];
                        assert(circuit.wire_of(second[j]).id == w2);
                    }
                }
                lemma_tally_frame(circuit.pins, after.pins, members);
            }
        }
        assert forall|t: int| 0 <= t < after.transistors.len() implies
            #[trigger] after.transistor_wf(
            t,
        ) by {
            assert(circuit.transistor_wf(t));
        }
    }
}

/// What connecting two pins of a well-formed circuit does to a third pin `other`: its drive
/// and its pending drive are as before; if it sat on the wire of either pin, and those wires
/// were different, it is now connected to the pins of the first wire followed by those of the
/// second; otherwise it is connected to the same pins as before.
pub proof fn lemma_connect_joins(circuit: CircuitView, pin_1: Pin, pin_2: Pin, other: Pin)
    requires
        circuit.wf(),
        circuit.has_pin(pin_1),
        circuit.has_pin(pin_2),
        circuit.has_pin(other),
    ensures
        circuit.connect(pin_1, pin_2).has_pin(other),
        circuit.connect(pin_1, pin_2).drive(other) == circuit.drive(other),
        circuit.connect(pin_1, pin_2).pending(other) == circuit.pending(other),
        circuit.connect(pin_1, pin_2).transistors == circuit.transistors,
        circuit.connect(pin_1, pin_2).connected(other) == if circuit.wire_of(pin_1)
            != circuit.wire_of(pin_2) && (circuit.wire_of(other) == circuit.wire_of(pin_1)
            || circuit.wire_of(other) == circuit.wire_of(pin_2)) {
            circuit.connected(pin_1) + circuit.connected(pin_2)
        } else {
            circuit.connected(other)
        },
{
    reveal(CircuitView::connect_wires);
    let wire_1 = circuit.wire_of(pin_1);
    let wire_2 = circuit.wire_of(pin_2);
    assert(circuit.pin_wf(pin_1.id as int));
    assert(circuit.pin_wf(pin_2.id as int));
    assert(circuit.pin_wf(other.id as int));
    assert(circuit.wire_wf(wire_1.id as int));
    assert(circuit.wire_wf(wire_2.id as int));
    if wire_1 != wire_2 {
        let second = circuit.wires[wire_2.id as int].pins;
        assert(Pin { id: other.id as int as usize } == other);
        if second.contains(other) {
            let j = choose|j: int| 0 <= j < second.len() && second[j] == other;
            assert(circuit.wire_of(second[j]).id == wire_2.id);
        }
    }
}

/// After two pins are connected, both list the same connected pins, in the same order, and
/// both read the same value.
pub proof fn lemma_connect_shares_pins(circuit: CircuitView, pin_1: Pin, pin_2: Pin)
    requires
        circuit.wf(),
        circuit.has_pin(pin_1),
        circuit.has_pin(pin_2),
    ensures
        circuit.connect(pin_1, pin_2).connected(pin_1) == circuit.connect(pin_1, pin_2).connected(
            pin_2,
        ),
        circuit.connect(pin_1, pin_2).read(pin_1) == circuit.connect(pin_1, pin_2).read(pin_2),
{
    reveal(CircuitView::connect_wires);
    let wire_1 = circuit.wire_of(pin_1);
    let wire_2 = circuit.wire_of(pin_2);
    assert(circuit.pin_wf(pin_1.id as int));
    assert(circuit.pin_wf(pin_2.id as int));
    assert(circuit.wire_wf(wire_1.id as int));
    assert(circuit.wire_wf(wire_2.id as int));
    if wire_1 != wire_2 {
        let second = circuit.wires[wire_2.id as int].pins;
        assert(Pin { id: pin_1.id as int as usize } == pin_1);
        assert(Pin { id: pin_2.id as int as usize } == pin_2);
        if second.contains(pin_1) {
            let j = choose|j: int| 0 <= j < second.len() && second[j] == pin_1;
            assert(circuit.wire_of(second[j]).id == wire_2.id);
        }
    }
}

/// Connecting is idempotent: connecting two pins that already share a wire changes nothing,
/// and so connecting the same two pins a second time changes nothing.
pub proof fn lemma_connect_idempotent(circuit: CircuitView, pin_1: Pin, pin_2: Pin)
    requires
        circuit.wf(),
        circuit.has_pin(pin_1),
        circuit.has_pin(pin_2),
    ensures
        circuit.wire_of(pin_1) == circuit.wire_of(pin_2) ==> circuit.connect(pin_1, pin_2)
            == circuit,
        circuit.connect(pin_1, pin_2).connect(pin_1, pin_2) == circuit.connect(pin_1, pin_2),
{
    reveal(CircuitView::connect_wires);
    let wire_1 = circuit.wire_of(pin_1);
    let wire_2 = circuit.wire_of(pin_2);
    assert(circuit.pin_wf(pin_1.id as int));
    assert(circuit.pin_wf(pin_2.id as int));
    assert(circuit.wire_wf(wire_1.id as int));
    assert(circuit.wire_wf(wire_2.id as int));
    if wire_1 != wire_2 {
        let second = circuit.wires[wire_2.id as int].pins;
        assert(Pin { id: pin_1.id as int as usize } == pin_1);
        assert(Pin { id: pin_2.id as int as usize } == pin_2);
        if second.contains(pin_1) {
            let j = choose|j: int| 0 <= j < second.len() && second[j] == pin_1;
            assert(circuit.wire_of(second[j]).id == wire_2.id);
        }
    }
}

} // verus!
