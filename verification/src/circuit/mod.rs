//! The pin and wire fabric. A [`Circuit`] is the store that holds every pin, every wire and
//! every transistor record; [`Pin`] and [`Wire`] are handles into it. Each pin sits on exactly
//! one wire, connecting pins merges their wires, and each wire keeps the value that the drives
//! of its pins resolve to.

pub mod laws;
pub mod lemmas;
pub mod model;
pub mod pin;
pub mod wire;

use crate::circuit::pin::Pin;
use crate::circuit::wire::Wire;
use crate::value::drive_value::DriveValue;
use crate::value::drive_value_accumulator::DriveValueAccumulator;
use crate::value::drive_value_accumulator::Tally;
use crate::value::logic_value::LogicValue;
use vstd::prelude::*;

verus! {

/// What the store holds for one pin.
#[derive(Clone, Copy, Debug, PartialEq, Eq, Structural)]
pub struct PinState {
    /// The value the pin is driving now.
    pub current_drive: DriveValue,
    /// The value the pin starts to drive at its next tick, if one was set.
    pub next_drive: Option<DriveValue>,
    /// The wire the pin sits on.
    pub wire: Wire,
}

/// What the store holds for one transistor.
#[derive(Clone, Copy, Debug, PartialEq, Eq, Structural)]
pub struct TransistorState {
    /// The pin that current flows from when the transistor conducts.
    pub source: Pin,
    /// The pin that decides whether the transistor conducts.
    pub gate: Pin,
    /// The pin that current flows to when the transistor conducts.
    pub drain: Pin,
    /// The level of its gate at which the transistor conducts: `true` for NMOS, `false` for PMOS.
    pub activation: bool,
    /// Set while an undriven gate has been seen for one tick and not yet reported.
    pub error_hysteresis: bool,
}

/// What the store holds for one wire.
pub struct WireState {
    value: LogicValue,
    pins: Vec<Pin>,
    drive_value_accumulator: DriveValueAccumulator,
}

/// The mathematical value of a wire.
pub struct WireView {
    /// The value the wire shows to a reader.
    pub value: LogicValue,
    /// The pins on the wire, in the order in which they joined it.
    pub pins: Seq<Pin>,
    /// The running count of the drives on the wire.
    pub tally: Tally,
}

impl View for WireState {
    type V = WireView;

    closed spec fn view(&self) -> WireView {
        WireView { value: self.value, pins: self.pins@, tally: self.drive_value_accumulator@ }
    }
}

/// The store of pins, wires and transistor records that make up one network.
pub struct Circuit {
    pins: Vec<PinState>,
    wires: Vec<WireState>,
    transistors: Vec<TransistorState>,
}

/// The mathematical value of a circuit. A handle's `id` is a position in these sequences.
pub struct CircuitView {
    /// The pins, by id.
    pub pins: Seq<PinState>,
    /// The wires, by id.
    pub wires: Seq<WireView>,
    /// The transistor records, by index.
    pub transistors: Seq<TransistorState>,
}

impl View for Circuit {
    type V = CircuitView;

    closed spec fn view(&self) -> CircuitView {
        CircuitView {
            pins: self.pins@,
            wires: Seq::new(self.wires@.len(), |w: int| self.wires@[w]@),
            transistors: self.transistors@,
        }
    }
}

impl Circuit {
    /// Creates a circuit that holds nothing.
    pub fn new() -> (circuit: Circuit)
        ensures
            circuit@ == CircuitView::empty(),
            circuit@.wf(),
    {
        let circuit = Circuit { pins: Vec::new(), wires: Vec::new(), transistors: Vec::new() };
        assert(circuit@.wires =~= Seq::empty());
        circuit
    }

    /// The number of pins in the circuit.
    pub fn num_pins(&self) -> (n: usize)
        ensures
            n == self@.pins.len(),
    {
        self.pins.len()
    }

    /// The number of transistor records in the circuit.
    pub fn num_transistors(&self) -> (n: usize)
        ensures
            n == self@.transistors.len(),
    {
        self.transistors.len()
    }

    /// The record of the transistor at `index`.
    pub fn transistor(&self, index: usize) -> (state: TransistorState)
        requires
            index < self@.transistors.len(),
        ensures
            state == self@.transistors[index as int],
    {
        self.transistors[index]
    }

    /// Adds a transistor record and returns its index.
    pub fn add_transistor(&mut self, state: TransistorState) -> (index: usize)
        ensures
            index == old(self)@.transistors.len(),
            final(self)@.transistors.len() <= usize::MAX,
            final(self)@ == (CircuitView {
                transistors: old(self)@.transistors.push(state),
                ..old(self)@
            }),
    {
        let index = self.transistors.len();
        self.transistors.push(state);
        assert(self@.wires =~= old(self)@.wires);
        assert(self.transistors.len() <= usize::MAX);
        index
    }

    /// Sets the hysteresis flag of the transistor at `index`.
    pub fn set_error_hysteresis(&mut self, index: usize, error_hysteresis: bool)
        requires
            index < old(self)@.transistors.len(),
        ensures
            final(self)@ == old(self)@.set_error_hysteresis(index as int, error_hysteresis),
    {
        self.transistors[index].error_hysteresis = error_hysteresis;
        assert(self@.wires =~= old(self)@.wires);
        assert(self@.transistors =~= old(self)@.set_error_hysteresis(
            index as int,
            error_hysteresis,
        ).transistors);
    }
}

} // verus!
