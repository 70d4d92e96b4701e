//! The laws of the tick: both phases are simultaneous, the outcome does not depend on the
//! order of the transistors, and a network at rest stays at rest.

use crate::circuit::laws::lemma_connected_contains_self;
use crate::circuit::laws::lemma_tick_pin_wf;
use crate::circuit::model::tally_of;
use crate::circuit::pin::Pin;
use crate::circuit::CircuitView;
use crate::circuit::PinState;
use crate::circuit::TransistorState;
use crate::circuit::WireView;
use crate::device::all_in;
use crate::primitive::transistor::Transistor;
use crate::simulation::laws::lemma_after_pins;
use crate::simulation::laws::lemma_after_tick;
use crate::simulation::laws::lemma_after_transistors;
use crate::simulation::laws::lemma_ready_parts;
use vstd::prelude::*;

verus! {

impl PinState {
    /// The pin after its tick: what was recorded as its next drive is what it drives, and
    /// nothing is recorded.
    pub open spec fn shown(self) -> PinState {
        PinState {
            current_drive: match self.next_drive {
                Some(next) => next,
                None => self.current_drive,
            },
            next_drive: None,
            wire: self.wire,
        }
    }
}

impl CircuitView {
    /// The pins of the circuit after those of `transistors` were ticked, all at once.
    pub open spec fn pins_shown(self, transistors: Seq<Transistor>) -> Seq<PinState> {
        Seq::new(
            self.pins.len(),
            |p: int|
                if self.is_pin_of(transistors, Pin { id: p as usize }) {
                    self.pins[p].shown()
                } else {
                    self.pins[p]
                },
        )
    }

    /// The wires of the circuit, each with the pins it has, counting and resolving the
    /// drives that these have in `pins`.
    pub open spec fn wires_resolving(self, pins: Seq<PinState>) -> Seq<WireView> {
        Seq::new(
            self.wires.len(),
            |w: int|
                WireView {
                    value: tally_of(pins, self.wires[w].pins).resolve(),
                    pins: self.wires[w].pins,
                    tally: tally_of(pins, self.wires[w].pins),
                },
        )
    }

    /// The circuit in which all that is recorded on the pins of `transistors` shows at once:
    /// each of these pins drives what was recorded for it, and every wire resolves the
    /// drives that its pins have then.
    pub open spec fn shown(self, transistors: Seq<Transistor>) -> CircuitView {
        CircuitView {
            pins: self.pins_shown(transistors),
            wires: self.wires_resolving(self.pins_shown(transistors)),
            transistors: self.transistors,
        }
    }

    /// The circuit with no next drive left on the pins of `transistors`.
    pub open spec fn pins_cleared(self, transistors: Seq<Transistor>) -> CircuitView {
        CircuitView {
            pins: Seq::new(
                self.pins.len(),
                |p: int|
                    if self.is_pin_of(transistors, Pin { id: p as usize }) {
                        PinState { next_drive: None, ..self.pins[p] }
                    } else {
                        self.pins[p]
                    },
            ),
            ..self
        }
    }

    /// Whether a tick of the pins of `transistors` would change none of them: what is
    /// recorded as a next drive on any of them is what it drives already.
    pub open spec fn pins_settled(self, transistors: Seq<Transistor>) -> bool {
        forall|pin: Pin|
            self.has_pin(pin) && self.is_pin_of(transistors, pin) ==> !(
            #[trigger] self.tick_pin_changed(pin))
    }

    /// The circuit in which each of `transistors` has decided, all from the readings of this
    /// circuit: the hysteresis flags are brought up to date and the decisions are recorded
    /// on the drains.
    pub open spec fn decided(self, transistors: Seq<Transistor>) -> CircuitView {
        CircuitView {
            pins: Seq::new(
                self.pins.len(),
                |p: int|
                    if self.is_drain_of(transistors, Pin { id: p as usize }) {
                        let t = self.transistor_of_drain(transistors, Pin { id: p as usize });
                        match t.next_drain(self) {
                            Some(next) => PinState {
                                next_drive: Some(next.strong()),
                                ..self.pins[p]
                            },
                            None => self.pins[p],
                        }
                    } else {
                        self.pins[p]
                    },
            ),
            transistors: Seq::new(
                self.transistors.len(),
                |t: int|
                    if transistors.contains(Transistor { index: t as usize }) {
                        TransistorState {
                            error_hysteresis: (Transistor {
                                index: t as usize,
                            }).next_error_hysteresis(self),
                            ..self.transistors[t]
                        }
                    } else {
                        self.transistors[t]
                    },
            ),
            ..self
        }
    }

    /// The one of `transistors` whose drain `pin` is.
    pub open spec fn transistor_of_drain(self, transistors: Seq<Transistor>, pin: Pin)
        -> Transistor {
        transistors[choose|i: int|
            0 <= i < transistors.len() && (#[trigger] transistors[i]).state(self).drain == pin]
    }
}

/// A drain names its transistor: among transistors of a well-formed circuit, the one whose
/// drain a pin is, is the only one.
pub proof fn lemma_transistor_of_drain(
    circuit: CircuitView,
    transistors: Seq<Transistor>,
    i: int,
)
    requires
        circuit.wf(),
        all_in(transistors, circuit),
        0 <= i < transistors.len(),
    ensures
        circuit.is_drain_of(transistors, transistors[i].state(circuit).drain),
        circuit.transistor_of_drain(transistors, transistors[i].state(circuit).drain)
            == transistors[i],
{
    let pin = transistors[i].state(circuit).drain;
    let k = choose|k: int|
        0 <= k < transistors.len() && (#[trigger] transistors[k]).state(circuit).drain == pin;
    assert(circuit.transistor_wf(transistors[i].index as int));
    assert(transistors[k].is_in(circuit));
}

/// A transistor that has not decided yet decides in a circuit in which others have decided
/// as it would have decided before them: deciding changes no reading.
pub proof fn lemma_decides_alike(
    circuit: CircuitView,
    decided: Seq<Transistor>,
    transistor: Transistor,
)
    requires
        circuit.wf(),
        transistor.is_in(circuit),
        !decided.contains(transistor),
    ensures
        transistor.is_in(circuit.decided(decided)),
        transistor.state(circuit.decided(decided)) == transistor.state(circuit),
        transistor.next_drain(circuit.decided(decided)) == transistor.next_drain(circuit),
        transistor.tick_changed(circuit.decided(decided)) == transistor.tick_changed(circuit),
        transistor.next_error_hysteresis(circuit.decided(decided))
            == transistor.next_error_hysteresis(circuit),
{
    assert(Transistor { index: transistor.index as int as usize } == transistor);
    assert(circuit.transistor_wf(transistor.index as int));
}

/// The records of the transistors after one more transistor has decided.
proof fn lemma_decided_transistors(circuit: CircuitView, transistors: Seq<Transistor>)
    requires
        circuit.wf(),
        circuit.ready(transistors),
        transistors.len() > 0,
    ensures
        transistors.last().ticked(circuit.decided(transistors.drop_last())).transistors
            == circuit.decided(transistors).transistors,
{
    let rest = transistors.drop_last();
    let last = transistors.last();
    let before = circuit.decided(rest);
    let after = last.ticked(before);
    let decided = circuit.decided(transistors);
    assert(last == transistors[transistors.len() - 1]);
    assert(!rest.contains(last)) by {
        if rest.contains(last) {
            let i = choose|i: int| 0 <= i < rest.len() && rest[i] == last;
            assert(transistors[i] == rest[i]);
        }
    }
    lemma_decides_alike(circuit, rest, last);
    assert forall|t: int| 0 <= t < circuit.transistors.len() implies after.transistors[t]
        == decided.transistors[t] by {
        let handle = Transistor { index: t as usize };
        if t == last.index {
            assert(handle == last);
            assert(transistors.contains(handle));
        } else {
            if rest.contains(handle) {
                let i = choose|i: int| 0 <= i < rest.len() && rest[i] == handle;
                assert(transistors[i] == handle);
            }
            if transistors.contains(handle) {
                let i = choose|i: int| 0 <= i < transistors.len() && transistors[i] == handle;
                assert(i < rest.len());
                assert(rest[i] == handle);
            }
        }
    }
    assert(after.transistors =~= decided.transistors);
}

/// The pins after one more transistor has decided.
proof fn lemma_decided_pins(circuit: CircuitView, transistors: Seq<Transistor>)
    requires
        circuit.wf(),
        circuit.ready(transistors),
        transistors.len() > 0,
    ensures
        transistors.last().ticked(circuit.decided(transistors.drop_last())).pins
            == circuit.decided(transistors).pins,
{
    let rest = transistors.drop_last();
    let last = transistors.last();
    let before = circuit.decided(rest);
    let after = last.ticked(before);
    let decided = circuit.decided(transistors);
    let drain = last.state(circuit).drain;
    assert(last == transistors[transistors.len() - 1]);
    assert(!rest.contains(last)) by {
        if rest.contains(last) {
            let i = choose|i: int| 0 <= i < rest.len() && rest[i] == last;
            assert(transistors[i] == rest[i]);
        }
    }
    assert forall|i: int| 0 <= i < rest.len() implies (#[trigger] rest[i]).is_in(circuit) by {
        assert(rest[i] == transistors[i]);
    }
    lemma_decides_alike(circuit, rest, last);
    assert(circuit.transistor_wf(last.index as int));
    lemma_transistor_of_drain(circuit, transistors, transistors.len() - 1);
    assert(!circuit.is_drain_of(rest, drain)) by {
        if circuit.is_drain_of(rest, drain) {
            let i = choose|i: int|
                0 <= i < rest.len() && (#[trigger] rest[i]).state(circuit).drain == drain;
            assert(transistors[i] == rest[i]);
            assert(rest[i].index != last.index);
        }
    }
    assert forall|p: int| 0 <= p < circuit.pins.len() implies after.pins[p] == decided.pins[p] by {
        let pin = Pin { id: p as usize };
        if p == drain.id {
            assert(pin == drain);
        } else {
            assert(after.pins[p] == before.pins[p]);
            if circuit.is_drain_of(transistors, pin) {
                let i = choose|i: int|
                    0 <= i < transistors.len() && (#[trigger] transistors[i]).state(
                        circuit,
                    ).drain == pin;
                assert(i < rest.len());
                assert(rest[i] == transistors[i]);
                lemma_transistor_of_drain(circuit, transistors, i);
                lemma_transistor_of_drain(circuit, rest, i);
            }
            if circuit.is_drain_of(rest, pin) {
                let i = choose|i: int|
                    0 <= i < rest.len() && (#[trigger] rest[i]).state(circuit).drain == pin;
                assert(transistors[i] == rest[i]);
                lemma_transistor_of_drain(circuit, transistors, i);
                lemma_transistor_of_drain(circuit, rest, i);
            }
        }
    }
    assert(after.pins =~= decided.pins);
}

/// The first phase of a tick is simultaneous: whatever the order of the transistors, each
/// decides from the readings before the tick, and a change is reported exactly if one of
/// them, ticked alone, would report one.
pub proof fn lemma_first_phase_is_simultaneous(circuit: CircuitView, transistors: Seq<Transistor>)
    requires
        circuit.wf(),
        circuit.ready(transistors),
    ensures
        circuit.after_transistors(transistors) == circuit.decided(transistors),
        circuit.transistors_changed(transistors) <==> exists|i: int|
            0 <= i < transistors.len() && (#[trigger] transistors[i]).tick_changed(circuit),
    decreases transistors.len(),
{
    if transistors.len() == 0 {
        assert(circuit.decided(transistors).pins =~= circuit.pins);
        assert(circuit.decided(transistors).transistors =~= circuit.transistors);
    } else {
        let rest = transistors.drop_last();
        let last = transistors.last();
        assert(rest + seq![last] =~= transistors);
        lemma_ready_parts(circuit, rest, seq![last]);
        lemma_first_phase_is_simultaneous(circuit, rest);
        assert(last == transistors[transistors.len() - 1]);
        assert(!rest.contains(last)) by {
            if rest.contains(last) {
                let i = choose|i: int| 0 <= i < rest.len() && rest[i] == last;
                assert(transistors[i] == rest[i]);
            }
        }
        lemma_decides_alike(circuit, rest, last);
        lemma_decided_transistors(circuit, transistors);
        lemma_decided_pins(circuit, transistors);

        if circuit.transistors_changed(transistors) {
            if circuit.transistors_changed(rest) {
                let i = choose|i: int|
                    0 <= i < rest.len() && (#[trigger] rest[i]).tick_changed(circuit);
                assert(transistors[i] == rest[i]);
            } else {
                assert(transistors[transistors.len() - 1].tick_changed(circuit));
            }
        }
        if exists|i: int|
            0 <= i < transistors.len() && (#[trigger] transistors[i]).tick_changed(circuit) {
            let i = choose|i: int|
                0 <= i < transistors.len() && (#[trigger] transistors[i]).tick_changed(circuit);
            if i < rest.len() {
                assert(rest[i] == transistors[i]);
            }
        }
    }
}

/// A tick of a pin that changes nothing only takes away what was recorded on the pin.
proof fn lemma_tick_pin_unchanged(circuit: CircuitView, pin: Pin)
    requires
        circuit.has_pin(pin),
        !circuit.tick_pin_changed(pin),
    ensures
        circuit.tick_pin(pin) == (CircuitView {
            pins: circuit.pins.update(
                pin.id as int,
                PinState { next_drive: None, ..circuit.pins[pin.id as int] },
            ),
            ..circuit
        }),
{
    let cleared = CircuitView {
        pins: circuit.pins.update(
            pin.id as int,
            PinState { next_drive: None, ..circuit.pins[pin.id as int] },
        ),
        ..circuit
    };
    assert(circuit.tick_pin(pin).pins =~= cleared.pins);
}

/// Whether `pin` is one of the three pins of `transistor`.
spec fn is_own_pin(circuit: CircuitView, transistor: Transistor, pin: Pin) -> bool {
    ||| transistor.state(circuit).drain == pin
    ||| transistor.state(circuit).gate == pin
    ||| transistor.state(circuit).source == pin
}

/// A tick of the pins of one transistor changes something exactly if a tick of one of the
/// three pins alone would; if it changes nothing, it only takes away what was recorded on
/// them.
proof fn lemma_pins_ticked_unchanged(transistor: Transistor, circuit: CircuitView)
    requires
        circuit.wf(),
        transistor.is_in(circuit),
    ensures
        transistor.pins_changed(circuit) <==> {
            ||| circuit.tick_pin_changed(transistor.state(circuit).drain)
            ||| circuit.tick_pin_changed(transistor.state(circuit).gate)
            ||| circuit.tick_pin_changed(transistor.state(circuit).source)
        },
        !transistor.pins_changed(circuit) ==> {
            &&& transistor.pins_ticked(circuit).pins.len() == circuit.pins.len()
            &&& transistor.pins_ticked(circuit).wires == circuit.wires
            &&& transistor.pins_ticked(circuit).transistors == circuit.transistors
            &&& forall|p: int|
                0 <= p < circuit.pins.len() ==> (#[trigger] transistor.pins_ticked(
                    circuit,
                ).pins[p]) == if is_own_pin(circuit, transistor, Pin { id: p as usize }) {
                    PinState { next_drive: None, ..circuit.pins[p] }
                } else {
                    circuit.pins[p]
                }
        },
{
    let state = transistor.state(circuit);
    assert(circuit.transistor_wf(transistor.index as int));
    if !circuit.tick_pin_changed(state.drain) {
        lemma_tick_pin_unchanged(circuit, state.drain);
        let first = circuit.tick_pin(state.drain);
        if !first.tick_pin_changed(state.gate) {
            lemma_tick_pin_unchanged(first, state.gate);
            let second = first.tick_pin(state.gate);
            if !second.tick_pin_changed(state.source) {
                lemma_tick_pin_unchanged(second, state.source);
                assert forall|p: int| 0 <= p < circuit.pins.len() implies (
                #[trigger] transistor.pins_ticked(circuit).pins[p]) == if is_own_pin(
                    circuit,
                    transistor,
                    Pin { id: p as usize },
                ) {
                    PinState { next_drive: None, ..circuit.pins[p] }
                } else {
                    circuit.pins[p]
                } by {
                    assert(Pin { id: state.drain.id as int as usize } == state.drain);
                    assert(Pin { id: state.gate.id as int as usize } == state.gate);
                    assert(Pin { id: state.source.id as int as usize } == state.source);
                }
            }
        }
    }
}

/// The second phase of a tick changes something exactly if a tick of one of the pins alone
/// would; if it changes nothing, it only takes away what was recorded on the pins.
pub proof fn lemma_second_phase(circuit: CircuitView, transistors: Seq<Transistor>)
    requires
        circuit.wf(),
        all_in(transistors, circuit),
    ensures
        circuit.pins_changed(transistors) <==> !circuit.pins_settled(transistors),
        !circuit.pins_changed(transistors) ==> circuit.after_pins(transistors)
            == circuit.pins_cleared(transistors),
    decreases transistors.len(),
{
    if transistors.len() == 0 {
        assert(circuit.pins_cleared(transistors).pins =~= circuit.pins);
    } else {
        let rest = transistors.drop_last();
        let last = transistors.last();
        assert(last == transistors[transistors.len() - 1]);
        assert forall|i: int| 0 <= i < rest.len() implies (#[trigger] rest[i]).is_in(circuit) by {
            assert(rest[i] == transistors[i]);
        }
        lemma_second_phase(circuit, rest);
        lemma_after_pins(circuit, rest);
        let state = last.state(circuit);
        assert(circuit.transistor_wf(last.index as int));
        assert forall|pin: Pin| circuit.is_pin_of(rest, pin) implies circuit.is_pin_of(
            transistors,
            pin,
        ) by {
            let i = choose|i: int|
                0 <= i < rest.len() && {
                    ||| (#[trigger] rest[i]).state(circuit).drain == pin
                    ||| rest[i].state(circuit).gate == pin
                    ||| rest[i].state(circuit).source == pin
                };
            assert(transistors[i] == rest[i]);
        }
        assert forall|pin: Pin| is_own_pin(circuit, last, pin) implies circuit.is_pin_of(
            transistors,
            pin,
        ) by {
            assert(transistors[transistors.len() - 1] == last);
        }
        assert forall|pin: Pin| circuit.is_pin_of(transistors, pin) implies circuit.is_pin_of(
            rest,
            pin,
        ) || is_own_pin(circuit, last, pin) by {
            let i = choose|i: int|
                0 <= i < transistors.len() && {
                    ||| (#[trigger] transistors[i]).state(circuit).drain == pin
                    ||| transistors[i].state(circuit).gate == pin
                    ||| transistors[i].state(circuit).source == pin
                };
            if i < rest.len() {
                assert(rest[i] == transistors[i]);
            }
        }
        if circuit.pins_changed(rest) {
            let pin = choose|pin: Pin|
                circuit.has_pin(pin) && circuit.is_pin_of(rest, pin) && circuit.tick_pin_changed(
                    pin,
                );
            assert(circuit.is_pin_of(transistors, pin));
        } else {
            let before = circuit.after_pins(rest);
            assert(before == circuit.pins_cleared(rest));
            assert(last.state(before) == state);
            lemma_pins_ticked_unchanged(last, before);
            assert(Pin { id: state.drain.id as int as usize } == state.drain);
            assert(Pin { id: state.gate.id as int as usize } == state.gate);
            assert(Pin { id: state.source.id as int as usize } == state.source);
            assert(before.tick_pin_changed(state.drain) <==> !circuit.is_pin_of(rest, state.drain)
                && circuit.tick_pin_changed(state.drain));
            assert(before.tick_pin_changed(state.gate) <==> !circuit.is_pin_of(rest, state.gate)
                && circuit.tick_pin_changed(state.gate));
            assert(before.tick_pin_changed(state.source) <==> !circuit.is_pin_of(
                rest,
                state.source,
            ) && circuit.tick_pin_changed(state.source));
            if last.pins_changed(before) {
                assert(!circuit.pins_settled(transistors));
            } else {
                assert forall|pin: Pin|
                    circuit.has_pin(pin) && circuit.is_pin_of(transistors, pin) implies !(
                #[trigger] circuit.tick_pin_changed(pin)) by {
                    if !circuit.is_pin_of(rest, pin) {
                        assert(is_own_pin(circuit, last, pin));
                    }
                }
                let after = circuit.after_pins(transistors);
                let cleared = circuit.pins_cleared(transistors);
                assert forall|p: int| 0 <= p < circuit.pins.len() implies after.pins[p]
                    == cleared.pins[p] by {
                    let pin = Pin { id: p as usize };
                    assert(is_own_pin(before, last, pin) == is_own_pin(circuit, last, pin));
                }
                assert(after.pins =~= cleared.pins);
            }
        }
    }
}

/// Once a tick has changed nothing, no later tick changes anything: the network is at rest,
/// and a further tick leaves the circuit exactly as it is.
#[verifier::rlimit(40)]
pub proof fn lemma_settled_stays_settled(circuit: CircuitView, transistors: Seq<Transistor>)
    requires
        circuit.wf(),
        circuit.ready(transistors),
        !circuit.tick_changed(transistors),
    ensures
        !circuit.after_tick(transistors).tick_changed(transistors),
        circuit.after_tick(transistors).after_tick(transistors) == circuit.after_tick(transistors),
{
    let decided = circuit.after_transistors(transistors);
    let rested = circuit.after_tick(transistors);
    lemma_first_phase_is_simultaneous(circuit, transistors);
    lemma_after_transistors(circuit, transistors);
    lemma_second_phase(decided, transistors);
    lemma_after_tick(circuit, transistors);
    assert(rested == decided.pins_cleared(transistors));

    let again = rested.after_transistors(transistors);
    lemma_first_phase_is_simultaneous(rested, transistors);
    lemma_after_transistors(rested, transistors);
    lemma_second_phase(again, transistors);

    // Every transistor decides as it did.
    assert forall|i: int| 0 <= i < transistors.len() implies {
        &&& (#[trigger] transistors[i]).state(rested).drain == transistors[i].state(circuit).drain
        &&& transistors[i].next_drain(rested) == transistors[i].next_drain(circuit)
        &&& transistors[i].next_drain(circuit) is Some
        &&& !transistors[i].tick_changed(rested)
        &&& transistors[i].next_error_hysteresis(rested) == transistors[i].state(
            rested,
        ).error_hysteresis
    } by {
        let t = transistors[i];
        assert(!t.tick_changed(circuit));
        assert(circuit.transistor_wf(t.index as int));
        assert(Transistor { index: t.index as int as usize } == t);
        assert(transistors.contains(t));
        assert(rested.transistors[t.index as int] == circuit.decided(
            transistors,
        ).transistors[t.index as int]);
    }
    assert(!rested.transistors_changed(transistors));

    // What they record on their drains is what the drains drive already.
    assert forall|pin: Pin| again.has_pin(pin) && again.is_pin_of(transistors, pin) implies !(
    #[trigger] again.tick_pin_changed(pin)) by {
        if rested.is_drain_of(transistors, pin) {
            let i = choose|i: int|
                0 <= i < transistors.len() && (#[trigger] transistors[i]).state(rested).drain
                    == pin;
            lemma_transistor_of_drain(rested, transistors, i);
            lemma_transistor_of_drain(circuit, transistors, i);
            assert(Pin { id: pin.id as int as usize } == pin);
            assert(decided.is_pin_of(transistors, pin));
            assert(!decided.tick_pin_changed(pin));
        } else {
            let i = choose|i: int|
                0 <= i < transistors.len() && {
                    ||| (#[trigger] transistors[i]).state(again).drain == pin
                    ||| transistors[i].state(again).gate == pin
                    ||| transistors[i].state(again).source == pin
                };
            assert(Pin { id: pin.id as int as usize } == pin);
            assert(decided.is_pin_of(transistors, pin));
            assert(again.pins[pin.id as int] == rested.pins[pin.id as int]);
        }
    }
    assert(!again.pins_changed(transistors));

    // A further tick leaves the circuit as it is.
    let after = rested.after_tick(transistors);
    assert(after == again.pins_cleared(transistors));
    assert forall|t: int| 0 <= t < rested.transistors.len() implies after.transistors[t]
        == rested.transistors[t] by {
        let handle = Transistor { index: t as usize };
        if transistors.contains(handle) {
            let i = choose|i: int| 0 <= i < transistors.len() && transistors[i] == handle;
            assert(transistors[i].next_error_hysteresis(rested) == transistors[i].state(
                rested,
            ).error_hysteresis);
        }
    }
    assert(after.transistors =~= rested.transistors);
    assert forall|p: int| 0 <= p < rested.pins.len() implies after.pins[p] == rested.pins[p] by {
        let pin = Pin { id: p as usize };
        if again.is_pin_of(transistors, pin) {
            assert(decided.is_pin_of(transistors, pin));
        } else {
            if rested.is_drain_of(transistors, pin) {
                let i = choose|i: int|
                    0 <= i < transistors.len() && (#[trigger] transistors[i]).state(
                        rested,
                    ).drain == pin;
                assert(again.is_pin_of(transistors, pin));
            }
        }
    }
    assert(after.pins =~= rested.pins);
}

/// What a tick of a pin does to the pins and to the lists of the wires.
proof fn lemma_tick_pin_shows(circuit: CircuitView, pin: Pin)
    requires
        circuit.has_pin(pin),
        circuit.has_wire(circuit.wire_of(pin)),
    ensures
        circuit.tick_pin(pin).pins == circuit.pins.update(
            pin.id as int,
            circuit.pins[pin.id as int].shown(),
        ),
        circuit.tick_pin(pin).transistors == circuit.transistors,
        circuit.tick_pin(pin).wires.len() == circuit.wires.len(),
        forall|w: int|
            0 <= w < circuit.wires.len() ==> (#[trigger] circuit.tick_pin(pin).wires[w]).pins
                == circuit.wires[w].pins,
{
    assert(circuit.tick_pin(pin).pins =~= circuit.pins.update(
        pin.id as int,
        circuit.pins[pin.id as int].shown(),
    ));
}

/// What the second phase of a tick does to the pins and to the lists of the wires.
proof fn lemma_after_pins_shows(circuit: CircuitView, transistors: Seq<Transistor>)
    requires
        circuit.wf(),
        all_in(transistors, circuit),
    ensures
        circuit.after_pins(transistors).pins == circuit.pins_shown(transistors),
        circuit.after_pins(transistors).transistors == circuit.transistors,
        circuit.after_pins(transistors).wires.len() == circuit.wires.len(),
        forall|w: int|
            0 <= w < circuit.wires.len() ==> (#[trigger] circuit.after_pins(
                transistors,
            ).wires[w]).pins == circuit.wires[w].pins,
    decreases transistors.len(),
{
    if transistors.len() == 0 {
        assert(circuit.pins_shown(transistors) =~= circuit.pins);
    } else {
        let rest = transistors.drop_last();
        let last = transistors.last();
        assert(last == transistors[transistors.len() - 1]);
        assert forall|i: int| 0 <= i < rest.len() implies (#[trigger] rest[i]).is_in(circuit) by {
            assert(rest[i] == transistors[i]);
        }
        lemma_after_pins_shows(circuit, rest);
        lemma_after_pins(circuit, rest);
        let before = circuit.after_pins(rest);
        let state = last.state(circuit);
        assert(last.state(before) == state);
        assert(before.transistor_wf(last.index as int));
        lemma_connected_contains_self(before, state.drain);
        lemma_tick_pin_shows(before, state.drain);
        let first = before.tick_pin(state.drain);
        lemma_tick_pin_wf(before, state.drain);
        lemma_connected_contains_self(first, state.gate);
        lemma_tick_pin_shows(first, state.gate);
        let second = first.tick_pin(state.gate);
        lemma_tick_pin_wf(first, state.gate);
        lemma_connected_contains_self(second, state.source);
        lemma_tick_pin_shows(second, state.source);
        let after = circuit.after_pins(transistors);
        assert(after == second.tick_pin(state.source));

        assert forall|pin: Pin| circuit.is_pin_of(rest, pin) implies circuit.is_pin_of(
            transistors,
            pin,
        ) by {
            let i = choose|i: int|
                0 <= i < rest.len() && {
                    ||| (#[trigger] rest[i]).state(circuit).drain == pin
                    ||| rest[i].state(circuit).gate == pin
                    ||| rest[i].state(circuit).source == pin
                };
            assert(transistors[i] == rest[i]);
        }
        assert forall|pin: Pin| is_own_pin(circuit, last, pin) implies circuit.is_pin_of(
            transistors,
            pin,
        ) by {
            assert(transistors[transistors.len() - 1] == last);
        }
        assert forall|pin: Pin| circuit.is_pin_of(transistors, pin) implies circuit.is_pin_of(
            rest,
            pin,
        ) || is_own_pin(circuit, last, pin) by {
            let i = choose|i: int|
                0 <= i < transistors.len() && {
                    ||| (#[trigger] transistors[i]).state(circuit).drain == pin
                    ||| transistors[i].state(circuit).gate == pin
                    ||| transistors[i].state(circuit).source == pin
                };
            if i < rest.len() {
                assert(rest[i] == transistors[i]);
            }
        }
        assert forall|p: int| 0 <= p < circuit.pins.len() implies after.pins[p]
            == circuit.pins_shown(transistors)[p] by {
            let pin = Pin { id: p as usize };
            assert(Pin { id: state.drain.id as int as usize } == state.drain);
            assert(Pin { id: state.gate.id as int as usize } == state.gate);
            assert(Pin { id: state.source.id as int as usize } == state.source);
            assert(is_own_pin(circuit, last, pin) <==> p == state.drain.id || p == state.gate.id
                || p == state.source.id);
        }
        assert(after.pins =~= circuit.pins_shown(transistors));
    }
}

/// The second phase of a tick is simultaneous: whatever the order of the pins, all that was
/// recorded shows at once.
pub proof fn lemma_second_phase_is_simultaneous(circuit: CircuitView, transistors: Seq<Transistor>)
    requires
        circuit.wf(),
        all_in(transistors, circuit),
    ensures
        circuit.after_pins(transistors) == circuit.shown(transistors),
{
    let after = circuit.after_pins(transistors);
    let shown = circuit.shown(transistors);
    lemma_after_pins_shows(circuit, transistors);
    lemma_after_pins(circuit, transistors);
    assert forall|w: int| 0 <= w < circuit.wires.len() implies after.wires[w] == shown.wires[w] by {
        assert(after.wire_wf(w));
    }
    assert(after.wires =~= shown.wires);
}

/// A tick is simultaneous. Every transistor decides from the readings before the tick, and
/// then all that was decided shows at once: the outcome does not depend on the order in
/// which the hierarchy is walked.
pub proof fn lemma_tick_is_simultaneous(circuit: CircuitView, transistors: Seq<Transistor>)
    requires
        circuit.wf(),
        circuit.ready(transistors),
    ensures
        circuit.after_tick(transistors) == circuit.decided(transistors).shown(transistors),
        circuit.tick_changed(transistors) <==> (exists|i: int|
            0 <= i < transistors.len() && (#[trigger] transistors[i]).tick_changed(circuit))
            || !circuit.decided(transistors).pins_settled(transistors),
{
    lemma_first_phase_is_simultaneous(circuit, transistors);
    lemma_after_transistors(circuit, transistors);
    lemma_second_phase_is_simultaneous(circuit.decided(transistors), transistors);
    lemma_second_phase(circuit.decided(transistors), transistors);
}

/// The pins of the same transistors are the same pins, in whatever order the transistors are
/// listed.
proof fn lemma_same_pins(
    circuit: CircuitView,
    one: Seq<Transistor>,
    other: Seq<Transistor>,
    pin: Pin,
)
    requires
        forall|t: Transistor| one.contains(t) ==> other.contains(t),
    ensures
        circuit.is_pin_of(one, pin) ==> circuit.is_pin_of(other, pin),
        circuit.is_drain_of(one, pin) ==> circuit.is_drain_of(other, pin),
{
    if circuit.is_pin_of(one, pin) {
        let i = choose|i: int|
            0 <= i < one.len() && {
                ||| (#[trigger] one[i]).state(circuit).drain == pin
                ||| one[i].state(circuit).gate == pin
                ||| one[i].state(circuit).source == pin
            };
        assert(one.contains(one[i]));
        let k = choose|k: int| 0 <= k < other.len() && other[k] == one[i];
        assert(other[k] == one[i]);
    }
    if circuit.is_drain_of(one, pin) {
        let i = choose|i: int|
            0 <= i < one.len() && (#[trigger] one[i]).state(circuit).drain == pin;
        assert(one.contains(one[i]));
        let k = choose|k: int| 0 <= k < other.len() && other[k] == one[i];
        assert(other[k] == one[i]);
    }
}

/// The outcome of a tick does not depend on the order of the transistors: two walks over
/// the same transistors change the circuit in the same way and report the same.
pub proof fn lemma_tick_ignores_order(
    circuit: CircuitView,
    one: Seq<Transistor>,
    other: Seq<Transistor>,
)
    requires
        circuit.wf(),
        circuit.ready(one),
        circuit.ready(other),
        forall|t: Transistor| one.contains(t) <==> other.contains(t),
    ensures
        circuit.after_tick(one) == circuit.after_tick(other),
        circuit.tick_changed(one) == circuit.tick_changed(other),
{
    lemma_tick_is_simultaneous(circuit, one);
    lemma_tick_is_simultaneous(circuit, other);
    let decided = circuit.decided(one);
    assert forall|p: int| 0 <= p < circuit.pins.len() implies decided.pins[p] == circuit.decided(
        other,
    ).pins[p] by {
        let pin = Pin { id: p as usize };
        lemma_same_pins(circuit, one, other, pin);
        lemma_same_pins(circuit, other, one, pin);
        if circuit.is_drain_of(one, pin) {
            let i = choose|i: int|
                0 <= i < one.len() && (#[trigger] one[i]).state(circuit).drain == pin;
            let k = choose|k: int|
                0 <= k < other.len() && (#[trigger] other[k]).state(circuit).drain == pin;
            lemma_transistor_of_drain(circuit, one, i);
            lemma_transistor_of_drain(circuit, other, k);
            assert(circuit.transistor_wf(one[i].index as int));
            assert(other[k].is_in(circuit));
        }
    }
    assert(decided.pins =~= circuit.decided(other).pins);
    assert(decided.transistors =~= circuit.decided(other).transistors);
    assert(decided == circuit.decided(other));
    assert forall|pin: Pin| decided.is_pin_of(one, pin) == decided.is_pin_of(other, pin) by {
        lemma_same_pins(decided, one, other, pin);
        lemma_same_pins(decided, other, one, pin);
    }
    assert(decided.pins_shown(one) =~= decided.pins_shown(other));
    if exists|i: int| 0 <= i < one.len() && (#[trigger] one[i]).tick_changed(circuit) {
        let i = choose|i: int| 0 <= i < one.len() && (#[trigger] one[i]).tick_changed(circuit);
        assert(one.contains(one[i]));
        let k = choose|k: int| 0 <= k < other.len() && other[k] == one[i];
        assert(other[k].tick_changed(circuit));
    }
    if exists|i: int| 0 <= i < other.len() && (#[trigger] other[i]).tick_changed(circuit) {
        let i = choose|i: int|
            0 <= i < other.len() && (#[trigger] other[i]).tick_changed(circuit);
        assert(other.contains(other[i]));
        let k = choose|k: int| 0 <= k < one.len() && one[k] == other[i];
        assert(one[k].tick_changed(circuit));
    }
}

/// What a tick does to a circuit in which no next drive is recorded. The drain of every
/// transistor that has decided drives what was decided for it, from the readings before the
/// tick; the drain of a transistor that found its gate undriven for the first time, and
/// every pin that is no drain, drives what it drove. No pin changes its wire, and nothing
/// is recorded when the tick is over.
pub proof fn lemma_tick_drives_the_drains(
    circuit: CircuitView,
    transistors: Seq<Transistor>,
    pin: Pin,
)
    requires
        circuit.wf(),
        circuit.ready(transistors),
        circuit.quiet(),
        circuit.has_pin(pin),
    ensures
        circuit.after_tick(transistors).wf(),
        circuit.after_tick(transistors).quiet(),
        circuit.after_tick(transistors).has_pin(pin),
        circuit.after_tick(transistors).connected(pin) == circuit.connected(pin),
        circuit.after_tick(transistors).drive(pin) == if circuit.is_drain_of(transistors, pin) {
            match circuit.transistor_of_drain(transistors, pin).next_drain(circuit) {
                Some(next) => next.strong(),
                None => circuit.drive(pin),
            }
        } else {
            circuit.drive(pin)
        },
{
    lemma_tick_is_simultaneous(circuit, transistors);
    lemma_after_tick(circuit, transistors);
    lemma_after_transistors(circuit, transistors);
    assert(Pin { id: pin.id as int as usize } == pin);
    assert(circuit.pin_wf(pin.id as int));
}

/// What a tick does to the transistors: the hysteresis flag of each one ticked is set
/// exactly if its gate read undriven or in error before the tick; nothing else in a record
/// changes, and no other record changes.
pub proof fn lemma_tick_sets_the_flags(
    circuit: CircuitView,
    transistors: Seq<Transistor>,
    transistor: Transistor,
)
    requires
        circuit.wf(),
        circuit.ready(transistors),
        transistor.is_in(circuit),
    ensures
        transistor.is_in(circuit.after_tick(transistors)),
        transistor.state(circuit.after_tick(transistors)) == if transistors.contains(transistor) {
            TransistorState {
                error_hysteresis: transistor.next_error_hysteresis(circuit),
                ..transistor.state(circuit)
            }
        } else {
            transistor.state(circuit)
        },
{
    lemma_tick_is_simultaneous(circuit, transistors);
    assert(Transistor { index: transistor.index as int as usize } == transistor);
}

} // verus!
