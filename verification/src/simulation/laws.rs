//! What a tick keeps: the fabric in its first phase, the transistor records in its second,
//! and the readiness of the transistors for the next tick.

use crate::circuit::laws::lemma_set_drive_wf;
use crate::circuit::laws::lemma_set_error_hysteresis_wf;
use crate::circuit::laws::lemma_tick_pin_wf;
use crate::circuit::pin::Pin;
use crate::circuit::CircuitView;
use crate::device::all_in;
use crate::device::transistor_range;
use crate::primitive::transistor::Transistor;
use vstd::prelude::*;

verus! {

impl CircuitView {
    /// Whether `other` has the pins, wires and transistors of this circuit, connected and
    /// driving as in this circuit. Only what is recorded for the next tick may differ: the
    /// next drives of pins and the hysteresis flags of transistors.
    pub open spec fn same_fabric(self, other: CircuitView) -> bool {
        &&& other.wires == self.wires
        &&& other.pins.len() == self.pins.len()
        &&& forall|p: int|
            0 <= p < self.pins.len() ==> (#[trigger] other.pins[p]).current_drive
                == self.pins[p].current_drive && other.pins[p].wire == self.pins[p].wire
        &&& other.transistors.len() == self.transistors.len()
        &&& forall|t: int|
            0 <= t < self.transistors.len() ==> {
                &&& (#[trigger] other.transistors[t]).source == self.transistors[t].source
                &&& other.transistors[t].gate == self.transistors[t].gate
                &&& other.transistors[t].drain == self.transistors[t].drain
                &&& other.transistors[t].activation == self.transistors[t].activation
            }
    }

    /// Whether `pin` is the drain of one of `transistors`.
    pub open spec fn is_drain_of(self, transistors: Seq<Transistor>, pin: Pin) -> bool {
        exists|i: int|
            0 <= i < transistors.len() && (#[trigger] transistors[i]).state(self).drain == pin
    }

    /// Whether `pin` is a drain, gate or source pin of one of `transistors`.
    pub open spec fn is_pin_of(self, transistors: Seq<Transistor>, pin: Pin) -> bool {
        exists|i: int|
            0 <= i < transistors.len() && {
                ||| (#[trigger] transistors[i]).state(self).drain == pin
                ||| transistors[i].state(self).gate == pin
                ||| transistors[i].state(self).source == pin
            }
    }
}

/// What a tick of one transistor leaves as it was: the fabric, every pin but its drain, and
/// every other transistor's record.
pub proof fn lemma_ticked(transistor: Transistor, circuit: CircuitView)
    requires
        circuit.wf(),
        transistor.is_in(circuit),
    ensures
        transistor.ticked(circuit).wf(),
        circuit.same_fabric(transistor.ticked(circuit)),
        forall|p: int|
            0 <= p < circuit.pins.len() && p != transistor.state(circuit).drain.id ==> (
            #[trigger] transistor.ticked(circuit).pins[p]) == circuit.pins[p],
        forall|u: int|
            0 <= u < circuit.transistors.len() && u != transistor.index ==> (
            #[trigger] transistor.ticked(circuit).transistors[u]) == circuit.transistors[u],
{
    let state = transistor.state(circuit);
    assert(circuit.transistor_wf(transistor.index as int));
    let flagged = circuit.set_error_hysteresis(
        transistor.index as int,
        transistor.next_error_hysteresis(circuit),
    );
    lemma_set_error_hysteresis_wf(
        circuit,
        transistor.index as int,
        transistor.next_error_hysteresis(circuit),
    );
    match transistor.next_drain(circuit) {
        Some(next) => {
            lemma_set_drive_wf(flagged, state.drain, next.strong());
        },
        None => {},
    }
}

/// What the first phase of a tick leaves as it was: the fabric, and so every reading; every
/// pin that is no drain of the transistors ticked; the record of every other transistor.
pub proof fn lemma_after_transistors(circuit: CircuitView, transistors: Seq<Transistor>)
    requires
        circuit.wf(),
        all_in(transistors, circuit),
    ensures
        circuit.after_transistors(transistors).wf(),
        circuit.same_fabric(circuit.after_transistors(transistors)),
        forall|p: int|
            0 <= p < circuit.pins.len() && !circuit.is_drain_of(transistors, Pin { id: p as usize })
                ==> (#[trigger] circuit.after_transistors(transistors).pins[p]) == circuit.pins[p],
        forall|u: int|
            0 <= u < circuit.transistors.len() && !transistors.contains(
                Transistor { index: u as usize },
            ) ==> (#[trigger] circuit.after_transistors(transistors).transistors[u])
                == circuit.transistors[u],
    decreases transistors.len(),
{
    if transistors.len() > 0 {
        let rest = transistors.drop_last();
        let last = transistors.last();
        let before = circuit.after_transistors(rest);
        let after = circuit.after_transistors(transistors);
        assert(last == transistors[transistors.len() - 1]);
        assert forall|i: int| 0 <= i < rest.len() implies (#[trigger] rest[i]).is_in(circuit) by {
            assert(rest[i] == transistors[i]);
        }
        lemma_after_transistors(circuit, rest);
        lemma_ticked(last, before);
        assert(last.state(before).drain == last.state(circuit).drain);
        assert forall|p: int|
            0 <= p < circuit.pins.len() && !circuit.is_drain_of(
                transistors,
                Pin { id: p as usize },
            ) implies (#[trigger] after.pins[p]) == circuit.pins[p] by {
            let pin = Pin { id: p as usize };
            if circuit.is_drain_of(rest, pin) {
                let i = choose|i: int|
                    0 <= i < rest.len() && (#[trigger] rest[i]).state(circuit).drain == pin;
                assert(transistors[i] == rest[i]);
            }
            assert(before.pins[p] == circuit.pins[p]);
        }
        assert forall|u: int|
            0 <= u < circuit.transistors.len() && !transistors.contains(
                Transistor { index: u as usize },
            ) implies (#[trigger] after.transistors[u]) == circuit.transistors[u] by {
            let handle = Transistor { index: u as usize };
            if rest.contains(handle) {
                let i = choose|i: int| 0 <= i < rest.len() && rest[i] == handle;
                assert(transistors[i] == handle);
            }
            assert(before.transistors[u] == circuit.transistors[u]);
        }
    }
}

/// The first phase over one list of transistors followed by another is the first phase over
/// the one, then over the other.
pub proof fn lemma_after_transistors_concat(
    circuit: CircuitView,
    first: Seq<Transistor>,
    second: Seq<Transistor>,
)
    ensures
        circuit.after_transistors(first + second) == circuit.after_transistors(
            first,
        ).after_transistors(second),
        circuit.transistors_changed(first + second) == (circuit.transistors_changed(first)
            || circuit.after_transistors(first).transistors_changed(second)),
    decreases second.len(),
{
    if second.len() == 0 {
        assert(first + second =~= first);
    } else {
        lemma_after_transistors_concat(circuit, first, second.drop_last());
        assert((first + second).drop_last() =~= first + second.drop_last());
        assert((first + second).last() == second.last());
    }
}

/// The second phase over one list of transistors followed by another is the second phase
/// over the one, then over the other.
pub proof fn lemma_after_pins_concat(
    circuit: CircuitView,
    first: Seq<Transistor>,
    second: Seq<Transistor>,
)
    ensures
        circuit.after_pins(first + second) == circuit.after_pins(first).after_pins(second),
        circuit.pins_changed(first + second) == (circuit.pins_changed(first) || circuit.after_pins(
            first,
        ).pins_changed(second)),
    decreases second.len(),
{
    if second.len() == 0 {
        assert(first + second =~= first);
    } else {
        lemma_after_pins_concat(circuit, first, second.drop_last());
        assert((first + second).drop_last() =~= first + second.drop_last());
        assert((first + second).last() == second.last());
    }
}

/// When transistors are ready to be ticked, so is every part of their list, and the later
/// ones remain ready while the earlier ones are ticked.
pub proof fn lemma_ready_parts(
    circuit: CircuitView,
    first: Seq<Transistor>,
    second: Seq<Transistor>,
)
    requires
        circuit.wf(),
        circuit.ready(first + second),
    ensures
        circuit.ready(first),
        circuit.after_transistors(first).wf(),
        circuit.after_transistors(first).ready(second),
{
    let all = first + second;
    assert forall|i: int| 0 <= i < first.len() implies (#[trigger] first[i]).is_in(circuit)
        && circuit.pending(first[i].state(circuit).drain) is None by {
        assert(all[i] == first[i]);
    }
    assert forall|i: int, j: int| 0 <= i < first.len() && 0 <= j < first.len() && i != j implies
        first[i]
        != first[j] by {
        assert(all[i] == first[i]);
        assert(all[j] == first[j]);
    }
    lemma_after_transistors(circuit, first);
    let after = circuit.after_transistors(first);
    assert forall|j: int| 0 <= j < second.len() implies (#[trigger] second[j]).is_in(after)
        && after.pending(second[j].state(after).drain) is None by {
        assert(all[first.len() + j] == second[j]);
        let drain = second[j].state(circuit).drain;
        assert(circuit.transistor_wf(second[j].index as int));
        if circuit.is_drain_of(first, drain) {
            let i = choose|i: int|
                0 <= i < first.len() && (#[trigger] first[i]).state(circuit).drain == drain;
            assert(all[i] == first[i]);
            assert(first[i].index != second[j].index);
        }
        assert(Pin { id: drain.id as int as usize } == drain);
        assert(after.pins[drain.id as int] == circuit.pins[drain.id as int]);
    }
    assert forall|i: int, j: int|
        0 <= i < second.len() && 0 <= j < second.len() && i != j implies second[i] != second[j] by {
        assert(all[first.len() + i] == second[i]);
        assert(all[first.len() + j] == second[j]);
    }
}

/// What a tick of the pins of one transistor leaves as it was: the transistor records and,
/// on every other pin, the next drive. On the three pins themselves no next drive is left.
pub proof fn lemma_pins_ticked(transistor: Transistor, circuit: CircuitView)
    requires
        circuit.wf(),
        transistor.is_in(circuit),
    ensures
        transistor.pins_ticked(circuit).wf(),
        transistor.pins_ticked(circuit).transistors == circuit.transistors,
        transistor.pins_ticked(circuit).pins.len() == circuit.pins.len(),
        forall|p: int|
            0 <= p < circuit.pins.len() ==> (#[trigger] transistor.pins_ticked(
                circuit,
            ).pins[p]).next_drive == if p == transistor.state(circuit).drain.id || p
                == transistor.state(circuit).gate.id || p == transistor.state(circuit).source.id {
                None
            } else {
                circuit.pins[p].next_drive
            },
{
    let state = transistor.state(circuit);
    assert(circuit.transistor_wf(transistor.index as int));
    let first = circuit.tick_pin(state.drain);
    lemma_tick_pin_wf(circuit, state.drain);
    let second = first.tick_pin(state.gate);
    lemma_tick_pin_wf(first, state.gate);
    lemma_tick_pin_wf(second, state.source);
}

/// What the second phase of a tick leaves as it was: the transistor records and, on every
/// pin of no transistor ticked, the next drive. On the pins of the transistors ticked no
/// next drive is left.
pub proof fn lemma_after_pins(circuit: CircuitView, transistors: Seq<Transistor>)
    requires
        circuit.wf(),
        all_in(transistors, circuit),
    ensures
        circuit.after_pins(transistors).wf(),
        circuit.after_pins(transistors).transistors == circuit.transistors,
        circuit.after_pins(transistors).pins.len() == circuit.pins.len(),
        forall|p: int|
            0 <= p < circuit.pins.len() ==> (#[trigger] circuit.after_pins(
                transistors,
            ).pins[p]).next_drive == if circuit.is_pin_of(transistors, Pin { id: p as usize }) {
                None
            } else {
                circuit.pins[p].next_drive
            },
    decreases transistors.len(),
{
    if transistors.len() > 0 {
        let rest = transistors.drop_last();
        let last = transistors.last();
        let before = circuit.after_pins(rest);
        let after = circuit.after_pins(transistors);
        assert(last == transistors[transistors.len() - 1]);
        assert forall|i: int| 0 <= i < rest.len() implies (#[trigger] rest[i]).is_in(circuit) by {
            assert(rest[i] == transistors[i]);
        }
        lemma_after_pins(circuit, rest);
        lemma_pins_ticked(last, before);
        assert(circuit.transistor_wf(last.index as int));
        assert forall|p: int| 0 <= p < circuit.pins.len() implies
            (#[trigger] after.pins[p]).next_drive
            == if circuit.is_pin_of(transistors, Pin { id: p as usize }) {
            None
        } else {
            circuit.pins[p].next_drive
        } by {
            let pin = Pin { id: p as usize };
            if circuit.is_pin_of(rest, pin) {
                let i = choose|i: int|
                    0 <= i < rest.len() && {
                        ||| (#[trigger] rest[i]).state(circuit).drain == pin
                        ||| rest[i].state(circuit).gate == pin
                        ||| rest[i].state(circuit).source == pin
                    };
                assert(transistors[i] == rest[i]);
            }
            if circuit.is_pin_of(transistors, pin) {
                let i = choose|i: int|
                    0 <= i < transistors.len() && {
                        ||| (#[trigger] transistors[i]).state(circuit).drain == pin
                        ||| transistors[i].state(circuit).gate == pin
                        ||| transistors[i].state(circuit).source == pin
                    };
                if i < rest.len() {
                    assert(rest[i] == transistors[i]);
                }
            }
        }
    }
}

/// A tick keeps a circuit well-formed and leaves its transistors ready for the next tick;
/// a circuit in which no next drive was recorded is left so.
pub proof fn lemma_after_tick(circuit: CircuitView, transistors: Seq<Transistor>)
    requires
        circuit.wf(),
        circuit.ready(transistors),
    ensures
        circuit.after_tick(transistors).wf(),
        circuit.after_tick(transistors).ready(transistors),
        circuit.after_tick(transistors).pins.len() == circuit.pins.len(),
        circuit.after_tick(transistors).transistors.len() == circuit.transistors.len(),
        circuit.quiet() ==> circuit.after_tick(transistors).quiet(),
{
    let decided = circuit.after_transistors(transistors);
    let after = circuit.after_tick(transistors);
    lemma_after_transistors(circuit, transistors);
    lemma_after_pins(decided, transistors);
    assert forall|i: int| 0 <= i < transistors.len() implies
        (#[trigger] transistors[i]).is_in(after)
        && after.pending(transistors[i].state(after).drain) is None by {
        let drain = transistors[i].state(decided).drain;
        assert(decided.transistor_wf(transistors[i].index as int));
        assert(Pin { id: drain.id as int as usize } == drain);
        assert(decided.is_pin_of(transistors, drain));
    }
    if circuit.quiet() {
        assert forall|p: int| 0 <= p < after.pins.len() implies
            (#[trigger] after.pins[p]).next_drive is None by {
            let pin = Pin { id: p as usize };
            if !decided.is_pin_of(transistors, pin) {
                if circuit.is_drain_of(transistors, pin) {
                    let i = choose|i: int|
                        0 <= i < transistors.len() && (#[trigger] transistors[i]).state(
                            circuit,
                        ).drain == pin;
                    assert(transistors[i].state(decided).drain == pin);
                }
                assert(decided.pins[p] == circuit.pins[p]);
            }
        }
    }
}

/// When transistors are ready to be ticked, so are the first of them, and those that follow
/// remain ready while the first are ticked.
pub proof fn lemma_ready_prefix(
    circuit: CircuitView,
    first: Seq<Transistor>,
    next: Seq<Transistor>,
    all: Seq<Transistor>,
)
    requires
        circuit.wf(),
        circuit.ready(all),
        (first + next).is_prefix_of(all),
    ensures
        circuit.ready(first + next),
        circuit.ready(first),
        circuit.after_transistors(first).wf(),
        circuit.after_transistors(first).ready(next),
{
    let part = first + next;
    assert(part + all.skip(part.len() as int) =~= all);
    lemma_ready_parts(circuit, part, all.skip(part.len() as int));
    lemma_ready_parts(circuit, first, next);
}

/// Transistors of a circuit are still its transistors while the pins of some of them are
/// ticked.
pub proof fn lemma_all_in_prefix(
    circuit: CircuitView,
    first: Seq<Transistor>,
    next: Seq<Transistor>,
    all: Seq<Transistor>,
)
    requires
        circuit.wf(),
        all_in(all, circuit),
        (first + next).is_prefix_of(all),
    ensures
        all_in(first + next, circuit),
        all_in(first, circuit),
        circuit.after_pins(first).wf(),
        all_in(next, circuit.after_pins(first)),
{
    let part = first + next;
    assert forall|i: int| 0 <= i < part.len() implies (#[trigger] part[i]).is_in(circuit) by {
        assert(part[i] == all[i]);
    }
    assert forall|i: int| 0 <= i < first.len() implies (#[trigger] first[i]).is_in(circuit) by {
        assert(part[i] == first[i]);
    }
    lemma_after_pins(circuit, first);
    assert forall|i: int| 0 <= i < next.len() implies (#[trigger] next[i]).is_in(
        circuit.after_pins(first),
    ) by {
        assert(part[first.len() + i] == next[i]);
    }
}

/// In a circuit in which no next drive is recorded, the transistors of a range are ready to
/// be ticked.
pub proof fn lemma_range_is_ready(circuit: CircuitView, first: nat, count: nat)
    requires
        circuit.wf(),
        circuit.quiet(),
        first + count <= circuit.transistors.len(),
    ensures
        circuit.ready(transistor_range(first, count)),
{
    let transistors = transistor_range(first, count);
    assert forall|i: int| 0 <= i < transistors.len() implies (#[trigger] transistors[i]).is_in(
        circuit,
    ) && circuit.pending(transistors[i].state(circuit).drain) is None by {
        assert(circuit.transistor_wf(transistors[i].index as int));
    }
}

} // verus!
