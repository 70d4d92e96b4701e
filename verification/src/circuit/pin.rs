//! Pins: the terminals of devices.

use crate::circuit::laws::lemma_add_pin_wf;
use crate::circuit::laws::lemma_read_is_resolved;
use crate::circuit::laws::lemma_set_drive_wf;
use crate::circuit::laws::lemma_tick_pin_fits;
use crate::circuit::laws::lemma_tick_pin_wf;
use crate::circuit::wire::Wire;
use crate::circuit::Circuit;
use crate::circuit::PinState;
use crate::value::drive_value::DriveValue;
use crate::value::logic_value::LogicValue;
use vstd::prelude::*;

verus! {

/// A terminal of a device: a handle to a pin of a [`Circuit`].
#[derive(Clone, Copy, Debug, PartialEq, Eq, Structural)]
pub struct Pin {
    /// The position of the pin in its circuit.
    pub id: usize,
}

impl Pin {
    /// Connects two pins: their wires become one. Does nothing when they already share a
    /// wire.
    pub fn connect(circuit: &mut Circuit, pin_1: Pin, pin_2: Pin)
        requires
            old(circuit)@.wf(),
            old(circuit)@.has_pin(pin_1),
            old(circuit)@.has_pin(pin_2),
        ensures
            final(circuit)@ == old(circuit)@.connect(pin_1, pin_2),
            final(circuit)@.wf(),
            final(circuit)@.pins.len() == old(circuit)@.pins.len(),
            final(circuit)@.transistors == old(circuit)@.transistors,
            old(circuit)@.quiet() ==> final(circuit)@.quiet(),
    {
        assert(circuit@.pin_wf(pin_1.id as int));
        assert(circuit@.pin_wf(pin_2.id as int));
        let wire_2 = circuit.pins[pin_2.id].wire;
        let wire_1 = circuit.pins[pin_1.id].wire;
        Wire::connect(circuit, wire_1, wire_2);
    }

    /// Connects each pair of `pairs`, in order.
    pub fn connect_each(circuit: &mut Circuit, pairs: &Vec<(Pin, Pin)>)
        requires
            old(circuit)@.wf(),
            old(circuit)@.has_pairs(pairs@),
        ensures
            final(circuit)@ == old(circuit)@.connect_each(pairs@),
            final(circuit)@.wf(),
            final(circuit)@.pins.len() == old(circuit)@.pins.len(),
            final(circuit)@.transistors == old(circuit)@.transistors,
            old(circuit)@.quiet() ==> final(circuit)@.quiet(),
    {
        let mut i: usize = 0;
        proof {
            assert(pairs@.subrange(0, 0) =~= Seq::empty());
        }
        while i < pairs.len()
            invariant
                i <= pairs.len(),
                circuit@ == old(circuit)@.connect_each(pairs@.subrange(0, i as int)),
                circuit@.wf(),
                circuit@.pins.len() == old(circuit)@.pins.len(),
                circuit@.transistors == old(circuit)@.transistors,
                old(circuit)@.quiet() ==> circuit@.quiet(),
                old(circuit)@.has_pairs(pairs@),
            decreases pairs.len() - i,
        {
            proof {
                assert(pairs@.subrange(0, i + 1).drop_last() =~= pairs@.subrange(0, i as int));
                assert(pairs@.subrange(0, i + 1).last() == pairs@[i as int]);
            }
            Pin::connect(circuit, pairs[i].0, pairs[i].1);
            i += 1;
        }
        proof {
            assert(pairs@.subrange(0, i as int) =~= pairs@);
        }
    }

    /// Lists the pins that share a wire with this pin, itself included, in the order in which
    /// they joined the wire.
    pub fn get_connected_pins(&self, circuit: &Circuit) -> (pins: Vec<Pin>)
        requires
            circuit@.has_pin(*self),
            circuit@.has_wire(circuit@.wire_of(*self)),
        ensures
            pins@ == circuit@.connected(*self),
    {
        circuit.pins[self.id].wire.get_all_pins(circuit)
    }

    /// The value this pin is driving now; a pending drive does not show.
    pub fn get_drive(&self, circuit: &Circuit) -> (drive: DriveValue)
        requires
            circuit@.has_pin(*self),
        ensures
            drive == circuit@.drive(*self),
    {
        circuit.pins[self.id].current_drive
    }

    /// Reads the value of the wire this pin sits on. In a well-formed circuit that is what
    /// the drives of the connected pins resolve to.
    pub fn read(&self, circuit: &Circuit) -> (value: LogicValue)
        requires
            circuit@.has_pin(*self),
            circuit@.has_wire(circuit@.wire_of(*self)),
        ensures
            value == circuit@.read(*self),
            circuit@.wf() ==> value == circuit@.resolved(*self),
    {
        proof {
            if circuit@.wf() {
                lemma_read_is_resolved(circuit@, *self);
            }
        }
        circuit.pins[self.id].wire.read(circuit)
    }

    /// Creates a pin that drives `initial_value`, alone on a new wire.
    pub fn new(circuit: &mut Circuit, initial_value: DriveValue) -> (pin: Pin)
        ensures
            pin.id == old(circuit)@.pins.len(),
            final(circuit)@ == old(circuit)@.add_pin(initial_value),
            final(circuit)@.pins.len() == old(circuit)@.pins.len() + 1,
            final(circuit)@.transistors == old(circuit)@.transistors,
            old(circuit)@.wf() ==> final(circuit)@.wf(),
            old(circuit)@.quiet() ==> final(circuit)@.quiet(),
    {
        let wire = Wire::new(circuit);
        let pin = Pin { id: circuit.pins.len() };
        circuit.pins.push(PinState { current_drive: initial_value, next_drive: None, wire });
        assert(circuit@.wires =~= old(circuit)@.add_wire().wires);
        assert(circuit.pins.len() <= usize::MAX && circuit.wires.len() <= usize::MAX);
        wire.set_initial_pin(circuit, pin);
        proof {
            assert(circuit@.wires =~= old(circuit)@.add_pin(initial_value).wires);
            if old(circuit)@.wf() {
                lemma_add_pin_wf(old(circuit)@, initial_value);
            }
        }
        pin
    }

    /// Records the value the pin starts to drive at its next tick. Only one value can be
    /// recorded between two ticks of the pin.
    pub fn set_drive(&self, circuit: &mut Circuit, to: DriveValue)
        requires
            old(circuit)@.has_pin(*self),
            old(circuit)@.pending(*self) is None,
        ensures
            final(circuit)@ == old(circuit)@.set_drive(*self, to),
            final(circuit)@.pins.len() == old(circuit)@.pins.len(),
            final(circuit)@.transistors == old(circuit)@.transistors,
            old(circuit)@.wf() ==> final(circuit)@.wf(),
    {
        circuit.pins[self.id].next_drive = Some(to);
        proof {
            assert(circuit@.wires =~= old(circuit)@.wires);
            assert(circuit@.pins =~= old(circuit)@.set_drive(*self, to).pins);
            if old(circuit)@.wf() {
                lemma_set_drive_wf(old(circuit)@, *self, to);
            }
        }
    }

    /// Tells the pin which wire it sits on. The wires' own lists are left as they are: the
    /// caller, which is merging wires, moves the pin between them.
    pub fn set_wire(&self, circuit: &mut Circuit, wire: Wire)
        requires
            old(circuit)@.has_pin(*self),
        ensures
            final(circuit)@ == old(circuit)@.set_wire(*self, wire),
    {
        circuit.pins[self.id].wire = wire;
        proof {
            assert(circuit@.wires =~= old(circuit)@.wires);
            assert(circuit@.pins =~= old(circuit)@.set_wire(*self, wire).pins);
        }
    }

    /// Makes a pending drive the current one, and tells the wire if that changes what the pin
    /// drives. Returns whether the drive changed.
    pub fn tick(&self, circuit: &mut Circuit) -> (changed: bool)
        requires
            old(circuit)@.wf(),
            old(circuit)@.has_pin(*self),
        ensures
            final(circuit)@ == old(circuit)@.tick_pin(*self),
            changed == old(circuit)@.tick_pin_changed(*self),
            final(circuit)@.wf(),
            final(circuit)@.pins.len() == old(circuit)@.pins.len(),
            final(circuit)@.transistors == old(circuit)@.transistors,
            final(circuit)@.pending(*self) is None,
            old(circuit)@.quiet() ==> final(circuit)@.quiet(),
    {
        let state = circuit.pins[self.id];
        if let Some(next_drive) = state.next_drive {
            let changed = state.current_drive != next_drive;
            if changed {
                proof {
                    lemma_tick_pin_fits(circuit@, *self);
                    assert(circuit.wires[state.wire.id as int].pins.len() <= usize::MAX);
                }
                state.wire.update_pin(circuit, state.current_drive, next_drive);
                circuit.pins[self.id].current_drive = next_drive;
            }
            circuit.pins[self.id].next_drive = None;
            proof {
                assert(circuit@.pins =~= old(circuit)@.tick_pin(*self).pins);
                assert(circuit@.wires =~= old(circuit)@.tick_pin(*self).wires);
                lemma_tick_pin_wf(old(circuit)@, *self);
            }
            changed
        } else {
            false
        }
    }
}

} // verus!
