//! The mathematical model of the simulation: what the two phases of a tick, a tick, and a
//! number of ticks do to the value of a circuit.

use crate::circuit::CircuitView;
use crate::device::all_in;
use crate::primitive::transistor::Transistor;
use vstd::prelude::*;

verus! {

impl Transistor {
    /// The circuit after the three pins of this transistor were ticked: drain, then gate,
    /// then source.
    pub open spec fn pins_ticked(self, circuit: CircuitView) -> CircuitView {
        let state = self.state(circuit);
        circuit.tick_pin(state.drain).tick_pin(state.gate).tick_pin(state.source)
    }

    /// Whether a tick of the three pins of this transistor changes the drive of one of them.
    pub open spec fn pins_changed(self, circuit: CircuitView) -> bool {
        let state = self.state(circuit);
        ||| circuit.tick_pin_changed(state.drain)
        ||| circuit.tick_pin(state.drain).tick_pin_changed(state.gate)
        ||| circuit.tick_pin(state.drain).tick_pin(state.gate).tick_pin_changed(state.source)
    }
}

impl CircuitView {
    /// Whether the transistors `transistors` can be ticked: they are transistors of this
    /// circuit, none is listed twice, and no next drive is recorded on the drain of any:
    /// its transistor alone decides what a drain drives.
    pub open spec fn ready(self, transistors: Seq<Transistor>) -> bool {
        &&& all_in(transistors, self)
        &&& transistors.no_duplicates()
        &&& forall|i: int|
            0 <= i < transistors.len() ==> self.pending(
                (#[trigger] transistors[i]).state(self).drain,
            ) is None
    }

    /// The first phase of a tick: the circuit after each of `transistors`, in order, has
    /// decided from the readings it finds what its drain drives next. The readings do not
    /// change in this phase.
    pub open spec fn after_transistors(self, transistors: Seq<Transistor>) -> CircuitView
        decreases transistors.len(),
    {
        if transistors.len() == 0 {
            self
        } else {
            transistors.last().ticked(self.after_transistors(transistors.drop_last()))
        }
    }

    /// Whether one of `transistors` reports a change in the first phase of a tick.
    pub open spec fn transistors_changed(self, transistors: Seq<Transistor>) -> bool
        decreases transistors.len(),
    {
        if transistors.len() == 0 {
            false
        } else {
            ||| self.transistors_changed(transistors.drop_last())
            ||| transistors.last().tick_changed(self.after_transistors(transistors.drop_last()))
        }
    }

    /// The second phase of a tick: the circuit after the pins of each of `transistors`, in
    /// order, were ticked, so that what was decided in the first phase shows.
    pub open spec fn after_pins(self, transistors: Seq<Transistor>) -> CircuitView
        decreases transistors.len(),
    {
        if transistors.len() == 0 {
            self
        } else {
            transistors.last().pins_ticked(self.after_pins(transistors.drop_last()))
        }
    }

    /// Whether a pin of one of `transistors` changes its drive in the second phase of a tick.
    pub open spec fn pins_changed(self, transistors: Seq<Transistor>) -> bool
        decreases transistors.len(),
    {
        if transistors.len() == 0 {
            false
        } else {
            ||| self.pins_changed(transistors.drop_last())
            ||| transistors.last().pins_changed(self.after_pins(transistors.drop_last()))
        }
    }

    /// The circuit one tick later: all of `transistors` decide, then all their pins are
    /// ticked.
    pub open spec fn after_tick(self, transistors: Seq<Transistor>) -> CircuitView {
        self.after_transistors(transistors).after_pins(transistors)
    }

    /// Whether a tick changes anything, in either phase.
    pub open spec fn tick_changed(self, transistors: Seq<Transistor>) -> bool {
        ||| self.transistors_changed(transistors)
        ||| self.after_transistors(transistors).pins_changed(transistors)
    }

    /// The circuit `ticks` ticks later.
    pub open spec fn after_ticks(self, transistors: Seq<Transistor>, ticks: nat) -> CircuitView
        decreases ticks,
    {
        if ticks == 0 {
            self
        } else {
            self.after_ticks(transistors, (ticks - 1) as nat).after_tick(transistors)
        }
    }

    /// Whether each of the first `ticks` ticks changes something.
    pub open spec fn unsettled_for(self, transistors: Seq<Transistor>, ticks: nat) -> bool {
        forall|k: nat| k < ticks
            ==> (#[trigger] self.after_ticks(transistors, k)).tick_changed(transistors)
    }
}

} // verus!
