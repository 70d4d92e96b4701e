//! The mathematical model of the fabric: the invariant, and what each operation on pins and
//! wires does to the value of a circuit.

use crate::circuit::pin::Pin;
use crate::circuit::wire::Wire;
use crate::circuit::CircuitView;
use crate::circuit::PinState;
use crate::circuit::WireView;
use crate::value::drive_value::DriveValue;
use crate::value::drive_value_accumulator::Tally;
use crate::value::logic_value::LogicValue;
use vstd::prelude::*;

verus! {

/// The tally of the drives of `members`, read from `pins`.
pub open spec fn tally_of(pins: Seq<PinState>, members: Seq<Pin>) -> Tally
    decreases members.len(),
{
    if members.len() == 0 {
        Tally::empty()
    } else {
        tally_of(pins, members.drop_last()).insert(pins[members.last().id as int].current_drive)
    }
}

/// The drives of `members`, read from `pins`, in the order of `members`.
pub open spec fn drives_of(pins: Seq<PinState>, members: Seq<Pin>) -> Seq<DriveValue> {
    Seq::new(members.len(), |i: int| pins[members[i].id as int].current_drive)
}

/// The logic value that a set of simultaneous drives resolves to. An `Error` drive, or two
/// opposed drives of the same strength, make the wire `Error`; otherwise a strong drive wins
/// over a weak one; if nothing drives, the wire is at high impedance.
pub open spec fn resolve_drives(drives: Seq<DriveValue>) -> LogicValue {
    if drives.contains(DriveValue::Error) || (drives.contains(DriveValue::Strong(true))
        && drives.contains(DriveValue::Strong(false))) || (drives.contains(DriveValue::Weak(true))
        && drives.contains(DriveValue::Weak(false))) {
        LogicValue::Error
    } else if drives.contains(DriveValue::Strong(true)) {
        LogicValue::Driven(true)
    } else if drives.contains(DriveValue::Strong(false)) {
        LogicValue::Driven(false)
    } else if drives.contains(DriveValue::Weak(true)) {
        LogicValue::Driven(true)
    } else if drives.contains(DriveValue::Weak(false)) {
        LogicValue::Driven(false)
    } else {
        LogicValue::HighImpedance
    }
}

impl WireView {
    /// A wire with no pin on it.
    pub open spec fn empty() -> WireView {
        WireView { value: LogicValue::HighImpedance, pins: Seq::empty(), tally: Tally::empty() }
    }
}

impl CircuitView {
    /// The circuit that holds nothing.
    pub open spec fn empty() -> CircuitView {
        CircuitView { pins: Seq::empty(), wires: Seq::empty(), transistors: Seq::empty() }
    }

    /// Whether `pin` is a pin of this circuit.
    pub open spec fn has_pin(self, pin: Pin) -> bool {
        pin.id < self.pins.len()
    }

    /// Whether `wire` is a wire of this circuit.
    pub open spec fn has_wire(self, wire: Wire) -> bool {
        wire.id < self.wires.len()
    }

    /// The value that `pin` is driving.
    pub open spec fn drive(self, pin: Pin) -> DriveValue {
        self.pins[pin.id as int].current_drive
    }

    /// The value that `pin` will start to drive at its next tick, if one was set.
    pub open spec fn pending(self, pin: Pin) -> Option<DriveValue> {
        self.pins[pin.id as int].next_drive
    }

    /// The wire that `pin` sits on.
    pub open spec fn wire_of(self, pin: Pin) -> Wire {
        self.pins[pin.id as int].wire
    }

    /// The pins that share a wire with `pin`, itself included, in the order in which they
    /// joined the wire.
    pub open spec fn connected(self, pin: Pin) -> Seq<Pin> {
        self.wires[self.wire_of(pin).id as int].pins
    }

    /// The value that a reader of `pin` sees: that of its wire.
    pub open spec fn read(self, pin: Pin) -> LogicValue {
        self.wires[self.wire_of(pin).id as int].value
    }

    /// What the drives of the pins connected to `pin` resolve to.
    pub open spec fn resolved(self, pin: Pin) -> LogicValue {
        resolve_drives(drives_of(self.pins, self.connected(pin)))
    }

    /// Whether the wire at position `w` lists pins of this circuit that all point back at it,
    /// lists none twice, counts exactly their drives, and shows the value the counts resolve
    /// to.
    pub open spec fn wire_wf(self, w: int) -> bool {
        let wire = self.wires[w];
        &&& forall|i: int|
            0 <= i < wire.pins.len() ==> self.has_pin(#[trigger] wire.pins[i]) && self.wire_of(
                wire.pins[i],
            ).id == w
        &&& wire.pins.no_duplicates()
        &&& wire.tally == tally_of(self.pins, wire.pins)
        &&& wire.value == wire.tally.resolve()
    }

    /// Whether the pin at position `p` sits on a wire of this circuit that lists it.
    pub open spec fn pin_wf(self, p: int) -> bool {
        &&& self.has_wire(self.pins[p].wire)
        &&& self.wires[self.pins[p].wire.id as int].pins.contains(Pin { id: p as usize })
    }

    /// Whether the transistor record at position `t` names pins of this circuit, and no other
    /// record shares its drain.
    pub open spec fn transistor_wf(self, t: int) -> bool {
        let state = self.transistors[t];
        &&& self.has_pin(state.source)
        &&& self.has_pin(state.gate)
        &&& self.has_pin(state.drain)
        &&& forall|u: int|
            0 <= u < self.transistors.len() && u != t ==> (#[trigger] self.transistors[u]).drain
                != state.drain
    }

    /// The invariant of the fabric: every pin is on exactly one wire, every wire counts
    /// exactly the drives of its pins and shows what they resolve to, and every transistor
    /// is the only driver of its own drain.
    pub open spec fn wf(self) -> bool {
        &&& self.pins.len() <= usize::MAX
        &&& self.wires.len() <= usize::MAX
        &&& self.transistors.len() <= usize::MAX
        &&& forall|p: int| 0 <= p < self.pins.len() ==> #[trigger] self.pin_wf(p)
        &&& forall|w: int| 0 <= w < self.wires.len() ==> #[trigger] self.wire_wf(w)
        &&& forall|t: int| 0 <= t < self.transistors.len() ==> #[trigger] self.transistor_wf(t)
    }

    /// Whether no pin of the circuit has a next drive recorded.
    pub open spec fn quiet(self) -> bool {
        forall|p: int| 0 <= p < self.pins.len() ==> (#[trigger] self.pins[p]).next_drive is None
    }

    /// Whether every transistor record of this circuit stands unchanged, at its position, in
    /// `later`.
    pub open spec fn transistors_kept_in(self, later: CircuitView) -> bool {
        &&& self.transistors.len() <= later.transistors.len()
        &&& forall|t: int|
            0 <= t < self.transistors.len() ==> (#[trigger] later.transistors[t])
                == self.transistors[t]
    }

    /// The circuit with one more wire, which has no pin yet.
    pub open spec fn add_wire(self) -> CircuitView {
        CircuitView { wires: self.wires.push(WireView::empty()), ..self }
    }

    /// The circuit after `pin` is put on the empty wire `wire` as its first pin.
    pub open spec fn set_initial_pin(self, wire: Wire, pin: Pin) -> CircuitView {
        let tally = self.wires[wire.id as int].tally.insert(self.drive(pin));
        CircuitView {
            wires: self.wires.update(
                wire.id as int,
                WireView { value: tally.resolve(), pins: seq![pin], tally },
            ),
            ..self
        }
    }

    /// The circuit with one more pin that drives `initial_value`, alone on a wire of its own.
    pub open spec fn add_pin(self, initial_value: DriveValue) -> CircuitView {
        let wire = Wire { id: self.wires.len() as usize };
        let pin = Pin { id: self.pins.len() as usize };
        let tally = Tally::empty().insert(initial_value);
        CircuitView {
            pins: self.pins.push(
                PinState { current_drive: initial_value, next_drive: None, wire },
            ),
            wires: self.wires.push(WireView { value: tally.resolve(), pins: seq![pin], tally }),
            ..self
        }
    }

    /// The circuit after `to` is recorded as the next drive of `pin`.
    pub open spec fn set_drive(self, pin: Pin, to: DriveValue) -> CircuitView {
        CircuitView {
            pins: self.pins.update(
                pin.id as int,
                PinState { next_drive: Some(to), ..self.pins[pin.id as int] },
            ),
            ..self
        }
    }

    /// The circuit after `pin` is told that it sits on `wire`. Nothing else changes: the
    /// wires' own lists are as before.
    pub open spec fn set_wire(self, pin: Pin, wire: Wire) -> CircuitView {
        CircuitView {
            pins: self.pins.update(pin.id as int, PinState { wire, ..self.pins[pin.id as int] }),
            ..self
        }
    }

    /// The circuit after `wire` is told that one of its pins changed its drive from `before`
    /// to `after`.
    pub open spec fn update_pin(self, wire: Wire, before: DriveValue, after: DriveValue)
        -> CircuitView {
        let tally = self.wires[wire.id as int].tally.update(before, after);
        CircuitView {
            wires: self.wires.update(
                wire.id as int,
                WireView { value: tally.resolve(), tally, ..self.wires[wire.id as int] },
            ),
            ..self
        }
    }

    /// Whether a tick of `pin` changes its drive: a next drive was set and differs from the
    /// current one.
    pub open spec fn tick_pin_changed(self, pin: Pin) -> bool {
        match self.pending(pin) {
            Some(next) => next != self.drive(pin),
            None => false,
        }
    }

    /// The circuit after a tick of `pin`: a pending drive becomes the current one and its
    /// wire takes it into account; nothing is pending on the pin afterwards.
    pub open spec fn tick_pin(self, pin: Pin) -> CircuitView {
        match self.pending(pin) {
            Some(next) => {
                let told = if next != self.drive(pin) {
                    self.update_pin(self.wire_of(pin), self.drive(pin), next)
                } else {
                    self
                };
                CircuitView {
                    pins: told.pins.update(
                        pin.id as int,
                        PinState {
                            current_drive: next,
                            next_drive: None,
                            ..told.pins[pin.id as int]
                        },
                    ),
                    ..told
                }
            },
            None => self,
        }
    }

    /// The pins of this circuit, with each pin of `members` moved to the wire `to`.
    pub open spec fn redirect(self, members: Seq<Pin>, to: Wire) -> Seq<PinState> {
        Seq::new(
            self.pins.len(),
            |p: int|
                if members.contains(Pin { id: p as usize }) {
                    PinState { wire: to, ..self.pins[p] }
                } else {
                    self.pins[p]
                },
        )
    }

    /// The circuit after `wire_2` is merged into `wire_1`: the pins of `wire_2` sit on
    /// `wire_1`, behind those it had, and `wire_2` is left empty. Merging a wire into itself
    /// changes nothing.
    #[verifier::opaque]
    pub open spec fn connect_wires(self, wire_1: Wire, wire_2: Wire) -> CircuitView {
        if wire_1 == wire_2 {
            self
        } else {
            let first = self.wires[wire_1.id as int];
            let second = self.wires[wire_2.id as int];
            let tally = first.tally.add(second.tally);
            CircuitView {
                pins: self.redirect(second.pins, wire_1),
                wires: self.wires.update(
                    wire_1.id as int,
                    WireView { value: tally.resolve(), pins: first.pins + second.pins, tally },
                ).update(wire_2.id as int, WireView::empty()),
                ..self
            }
        }
    }

    /// The circuit after `pin_1` and `pin_2` are connected: their wires are merged.
    pub open spec fn connect(self, pin_1: Pin, pin_2: Pin) -> CircuitView {
        self.connect_wires(self.wire_of(pin_1), self.wire_of(pin_2))
    }

    /// Whether both pins of every pair of `pairs` are pins of this circuit.
    pub open spec fn has_pairs(self, pairs: Seq<(Pin, Pin)>) -> bool {
        forall|i: int|
            0 <= i < pairs.len() ==> self.has_pin((#[trigger] pairs[i]).0) && self.has_pin(
                pairs[i].1,
            )
    }

    /// The circuit after each pair of `pairs`, in order, was connected.
    pub open spec fn connect_each(self, pairs: Seq<(Pin, Pin)>) -> CircuitView
        decreases pairs.len(),
    {
        if pairs.len() == 0 {
            self
        } else {
            self.connect_each(pairs.drop_last()).connect(pairs.last().0, pairs.last().1)
        }
    }

    /// The circuit with the hysteresis flag of the transistor at position `t` set.
    pub open spec fn set_error_hysteresis(self, t: int, error_hysteresis: bool) -> CircuitView {
        CircuitView {
            transistors: self.transistors.update(
                t,
                crate::circuit::TransistorState { error_hysteresis, ..self.transistors[t] },
            ),
            ..self
        }
    }
}

} // verus!
