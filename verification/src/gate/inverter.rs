//! What a NOT gate does: the nets it is built with, and the law that it inverts.

use crate::circuit::laws::lemma_add_pin_wf;
use crate::circuit::laws::lemma_connect_joins;
use crate::circuit::laws::lemma_connect_wires_wf;
use crate::circuit::laws::lemma_connected_contains_self;
use crate::circuit::laws::lemma_connected_is_shared;
use crate::circuit::pin::Pin;
use crate::circuit::CircuitView;
use crate::circuit::TransistorState;
use crate::gate::not_gate::NotGate;
use crate::primitive::constant::Constant;
use crate::primitive::transistor::Transistor;
use crate::circuit::laws::lemma_read_is_resolved;
use crate::circuit::model::drives_of;
use crate::device::transistor_range;
use crate::simulation::laws::lemma_range_is_ready;
use crate::simulation::settling::lemma_tick_drives_the_drains;
use crate::simulation::settling::lemma_tick_is_simultaneous;
use crate::simulation::settling::lemma_tick_sets_the_flags;
use crate::simulation::settling::lemma_transistor_of_drain;
use crate::value::drive_value::DriveValue;
use crate::value::logic_value::LogicValue;
use vstd::prelude::*;

verus! {

impl NotGate {
    /// The rail that is tied high, for a NOT gate created in a circuit that had `pins` pins.
    pub open spec fn high_rail(pins: nat) -> Pin {
        Constant::output_pin(pins)
    }

    /// The rail that is tied low, for a NOT gate created in a circuit that had `pins` pins.
    pub open spec fn low_rail(pins: nat) -> Pin {
        Constant::output_pin(pins + 1)
    }

    /// The NMOS transistor of a NOT gate created in a circuit that had `first` transistor
    /// records.
    pub open spec fn nmos_of(first: nat) -> Transistor {
        Transistor { index: first as usize }
    }

    /// The PMOS transistor of a NOT gate created in a circuit that had `first` transistor
    /// records.
    pub open spec fn pmos_of(first: nat) -> Transistor {
        Transistor { index: (first + 1) as usize }
    }

    /// Whether the NOT gate that was created at the pin `pins` and the record `first` stands
    /// in `circuit` as it was built: the two transistors are there, the rails drive high and
    /// low and each feeds the source of one transistor and nothing else, both transistors
    /// listen to the input, and both drains are on the output.
    pub open spec fn stands_in(circuit: CircuitView, pins: nat, first: nat) -> bool {
        let nmos = NotGate::nmos_of(first);
        let pmos = NotGate::pmos_of(first);
        &&& pins + 8 <= circuit.pins.len()
        &&& first + 2 <= circuit.transistors.len()
        &&& nmos.state(circuit).source == Transistor::source_pin(pins + 2)
        &&& nmos.state(circuit).gate == Transistor::gate_pin(pins + 2)
        &&& nmos.state(circuit).drain == Transistor::drain_pin(pins + 2)
        &&& nmos.state(circuit).activation
        &&& pmos.state(circuit).source == Transistor::source_pin(pins + 5)
        &&& pmos.state(circuit).gate == Transistor::gate_pin(pins + 5)
        &&& pmos.state(circuit).drain == Transistor::drain_pin(pins + 5)
        &&& !pmos.state(circuit).activation
        &&& circuit.drive(NotGate::high_rail(pins)) == DriveValue::Strong(true)
        &&& circuit.drive(NotGate::low_rail(pins)) == DriveValue::Strong(false)
        &&& circuit.drive(Transistor::source_pin(pins + 2)) == DriveValue::HighImpedance
        &&& circuit.drive(Transistor::source_pin(pins + 5)) == DriveValue::HighImpedance
        &&& circuit.connected(NotGate::low_rail(pins)) == seq![
            NotGate::low_rail(pins),
            Transistor::source_pin(pins + 2),
        ]
        &&& circuit.connected(NotGate::high_rail(pins)) == seq![
            NotGate::high_rail(pins),
            Transistor::source_pin(pins + 5),
        ]
        &&& circuit.wire_of(Transistor::gate_pin(pins + 5)) == circuit.wire_of(
            NotGate::input_pin(pins),
        )
        &&& circuit.wire_of(Transistor::drain_pin(pins + 5)) == circuit.wire_of(
            NotGate::output_pin(pins),
        )
    }
}

impl NotGate {
    /// Whether nothing but the NOT gate drives its output: every pin on the wire of the
    /// output, other than its two drains, is at high impedance.
    pub open spec fn alone_on_output(circuit: CircuitView, pins: nat) -> bool {
        forall|i: int|
            0 <= i < circuit.connected(NotGate::output_pin(pins)).len() ==> {
                let pin = #[trigger] circuit.connected(NotGate::output_pin(pins))[i];
                ||| pin == Transistor::drain_pin(pins + 2)
                ||| pin == Transistor::drain_pin(pins + 5)
                ||| circuit.drive(pin) == DriveValue::HighImpedance
            }
    }
}

/// A new pin stands alone on its wire, and the pins that were there are as they were.
proof fn lemma_add_pin_alone(circuit: CircuitView, drive: DriveValue, other: Pin)
    requires
        circuit.wf(),
        circuit.pins.len() < usize::MAX,
        circuit.wires.len() < usize::MAX,
        other.id <= circuit.pins.len(),
    ensures
        circuit.add_pin(drive).wf(),
        circuit.add_pin(drive).pins.len() == circuit.pins.len() + 1,
        circuit.add_pin(drive).wires.len() == circuit.wires.len() + 1,
        circuit.add_pin(drive).transistors == circuit.transistors,
        other.id == circuit.pins.len() ==> circuit.add_pin(drive).connected(other) == seq![other]
            && circuit.add_pin(drive).drive(other) == drive && circuit.add_pin(drive).pending(
            other,
        ) is None,
        other.id < circuit.pins.len() ==> circuit.add_pin(drive).connected(other)
            == circuit.connected(other) && circuit.add_pin(drive).drive(other) == circuit.drive(
            other,
        ) && circuit.add_pin(drive).pending(other) == circuit.pending(other),
{
    lemma_add_pin_wf(circuit, drive);
    if other.id < circuit.pins.len() {
        assert(circuit.pin_wf(other.id as int));
    }
}

/// A new transistor stands on three new pins, each alone on its wire and at high impedance,
/// and the pins and records that were there are as they were.
proof fn lemma_transistor_alone(circuit: CircuitView, activation: bool, other: Pin)
    requires
        circuit.wf(),
        circuit.pins.len() + 3 <= usize::MAX,
        circuit.wires.len() + 3 <= usize::MAX,
        circuit.transistors.len() < usize::MAX,
        other.id < circuit.pins.len() + 3,
    ensures
        Transistor::added(circuit, activation).wf(),
        Transistor::added(circuit, activation).pins.len() == circuit.pins.len() + 3,
        Transistor::added(circuit, activation).wires.len() == circuit.wires.len() + 3,
        Transistor::added(circuit, activation).transistors == circuit.transistors.push(
            TransistorState {
                source: Transistor::source_pin(circuit.pins.len()),
                gate: Transistor::gate_pin(circuit.pins.len()),
                drain: Transistor::drain_pin(circuit.pins.len()),
                activation,
                error_hysteresis: false,
            },
        ),
        other.id >= circuit.pins.len() ==> Transistor::added(circuit, activation).connected(other)
            == seq![other] && Transistor::added(circuit, activation).drive(other)
            == DriveValue::HighImpedance && Transistor::added(circuit, activation).pending(
            other,
        ) is None,
        other.id < circuit.pins.len() ==> Transistor::added(circuit, activation).connected(other)
            == circuit.connected(other) && Transistor::added(circuit, activation).drive(other)
            == circuit.drive(other) && Transistor::added(circuit, activation).pending(other)
            == circuit.pending(other),
{
    reveal(Transistor::added);
    let one = circuit.add_pin(DriveValue::HighImpedance);
    let two = one.add_pin(DriveValue::HighImpedance);
    let three = two.add_pin(DriveValue::HighImpedance);
    let after = Transistor::added(circuit, activation);
    lemma_add_pin_wf(circuit, DriveValue::HighImpedance);
    lemma_add_pin_wf(one, DriveValue::HighImpedance);
    lemma_add_pin_wf(two, DriveValue::HighImpedance);
    if other.id <= circuit.pins.len() {
        lemma_add_pin_alone(circuit, DriveValue::HighImpedance, other);
    }
    if other.id <= one.pins.len() {
        lemma_add_pin_alone(one, DriveValue::HighImpedance, other);
    }
    lemma_add_pin_alone(two, DriveValue::HighImpedance, other);
    assert forall|p: int| 0 <= p < after.pins.len() implies #[trigger] after.pin_wf(p) by {
        assert(three.pin_wf(p));
    }
    assert forall|w: int| 0 <= w < after.wires.len() implies #[trigger] after.wire_wf(w) by {
        assert(three.wire_wf(w));
    }
    assert forall|t: int| 0 <= t < after.transistors.len() implies #[trigger] after.transistor_wf(
        t,
    ) by {
        if t < circuit.transistors.len() {
            assert(circuit.transistor_wf(t));
        } else {
            assert forall|u: int| 0 <= u < after.transistors.len() && u != t implies (
            #[trigger] after.transistors[u]).drain != after.transistors[t].drain by {
                assert(circuit.transistor_wf(u));
            }
        }
    }
}

/// What connecting two pins that do not share a wire does to the nets: the pins connected
/// to either are now connected to all of them, those of the first before those of the
/// second; every other pin is connected as it was. No pin drives anything else.
proof fn lemma_connect_nets(circuit: CircuitView, pin_1: Pin, pin_2: Pin, other: Pin)
    requires
        circuit.wf(),
        circuit.has_pin(pin_1),
        circuit.has_pin(pin_2),
        circuit.has_pin(other),
        !circuit.connected(pin_1).contains(pin_2),
    ensures
        circuit.connect(pin_1, pin_2).wf(),
        circuit.connect(pin_1, pin_2).pins.len() == circuit.pins.len(),
        circuit.connect(pin_1, pin_2).wires.len() == circuit.wires.len(),
        circuit.connect(pin_1, pin_2).transistors == circuit.transistors,
        circuit.connect(pin_1, pin_2).drive(other) == circuit.drive(other),
        circuit.connect(pin_1, pin_2).pending(other) == circuit.pending(other),
        circuit.connect(pin_1, pin_2).connected(other) == if circuit.connected(pin_1).contains(
            other,
        ) || circuit.connected(pin_2).contains(other) {
            circuit.connected(pin_1) + circuit.connected(pin_2)
        } else {
            circuit.connected(other)
        },
        circuit.connect(pin_1, pin_2).connected(pin_1) == circuit.connected(pin_1)
            + circuit.connected(pin_2),
        circuit.connect(pin_1, pin_2).connected(pin_2) == circuit.connected(pin_1)
            + circuit.connected(pin_2),
{
    lemma_connect_joins(circuit, pin_1, pin_2, pin_1);
    lemma_connect_joins(circuit, pin_1, pin_2, pin_2);
    lemma_connect_joins(circuit, pin_1, pin_2, other);
    lemma_connected_contains_self(circuit, pin_1);
    lemma_connected_contains_self(circuit, pin_2);
    lemma_connected_contains_self(circuit, other);
    lemma_connect_wires_wf(circuit, circuit.wire_of(pin_1), circuit.wire_of(pin_2));
    assert(circuit.wire_wf(circuit.wire_of(pin_1).id as int));
    assert(circuit.wire_wf(circuit.wire_of(pin_2).id as int));
    assert(circuit.connect(pin_1, pin_2).pins.len() == circuit.pins.len() && circuit.connect(
        pin_1,
        pin_2,
    ).wires.len() == circuit.wires.len()) by {
        reveal(CircuitView::connect_wires);
    }
    if circuit.connected(pin_1).contains(other) {
        let i = choose|i: int|
            0 <= i < circuit.connected(pin_1).len() && circuit.connected(pin_1)[i] == other;
        assert(circuit.wire_of(circuit.connected(pin_1)[i]).id == circuit.wire_of(pin_1).id);
    }
    if circuit.connected(pin_2).contains(other) {
        let i = choose|i: int|
            0 <= i < circuit.connected(pin_2).len() && circuit.connected(pin_2)[i] == other;
        assert(circuit.wire_of(circuit.connected(pin_2)[i]).id == circuit.wire_of(pin_2).id);
    }
}

/// The parts of a NOT gate before they are connected.
spec fn parts(circuit: CircuitView) -> CircuitView {
    Transistor::added(
        Transistor::added(
            circuit.add_pin(DriveValue::Strong(true)).add_pin(DriveValue::Strong(false)),
            true,
        ),
        false,
    )
}

/// What a pin of a NOT gate drives when it is built in a circuit that had `pins`
/// pins: the rails drive high and low, every other pin is at high impedance.
pub open spec fn built_drive(pins: nat, pin: Pin) -> DriveValue {
    if pin == NotGate::high_rail(pins) {
        DriveValue::Strong(true)
    } else if pin == NotGate::low_rail(pins) {
        DriveValue::Strong(false)
    } else {
        DriveValue::HighImpedance
    }
}

/// Each pin of the parts of a NOT gate stands alone on its wire.
proof fn lemma_parts(circuit: CircuitView, other: Pin)
    requires
        circuit.wf(),
        circuit.pins.len() + 8 <= usize::MAX,
        circuit.wires.len() + 8 <= usize::MAX,
        circuit.transistors.len() + 2 <= usize::MAX,
        other.id < circuit.pins.len() + 8,
    ensures
        parts(circuit).wf(),
        parts(circuit).pins.len() == circuit.pins.len() + 8,
        parts(circuit).wires.len() == circuit.wires.len() + 8,
        parts(circuit).transistors == circuit.transistors.push(
            TransistorState {
                source: Transistor::source_pin(circuit.pins.len() + 2),
                gate: Transistor::gate_pin(circuit.pins.len() + 2),
                drain: Transistor::drain_pin(circuit.pins.len() + 2),
                activation: true,
                error_hysteresis: false,
            },
        ).push(
            TransistorState {
                source: Transistor::source_pin(circuit.pins.len() + 5),
                gate: Transistor::gate_pin(circuit.pins.len() + 5),
                drain: Transistor::drain_pin(circuit.pins.len() + 5),
                activation: false,
                error_hysteresis: false,
            },
        ),
        other.id >= circuit.pins.len() ==> parts(circuit).connected(other) == seq![other]
            && parts(circuit).drive(other) == built_drive(circuit.pins.len(), other) && parts(
            circuit,
        ).pending(other) is None,
        other.id < circuit.pins.len() ==> parts(circuit).connected(other) == circuit.connected(
            other,
        ) && parts(circuit).drive(other) == circuit.drive(other) && parts(circuit).pending(other)
            == circuit.pending(other),
{
    let one = circuit.add_pin(DriveValue::Strong(true));
    let two = one.add_pin(DriveValue::Strong(false));
    let three = Transistor::added(two, true);
    lemma_add_pin_wf(circuit, DriveValue::Strong(true));
    lemma_add_pin_wf(one, DriveValue::Strong(false));
    if other.id <= circuit.pins.len() {
        lemma_add_pin_alone(circuit, DriveValue::Strong(true), other);
    }
    if other.id <= one.pins.len() {
        lemma_add_pin_alone(one, DriveValue::Strong(false), other);
    }
    if other.id < two.pins.len() + 3 {
        lemma_transistor_alone(two, true, other);
    } else {
        lemma_transistor_alone(two, true, Pin { id: 0 });
    }
    lemma_transistor_alone(three, false, other);
}

/// The nets of a new NOT gate. Both transistors listen to the input, both drains are on
/// the output, and each rail feeds the source of one transistor; the two rails drive high
/// and low, and every other pin is at high impedance. What was in the circuit
/// before is as it was.
pub proof fn lemma_added_nets(circuit: CircuitView, other: Pin)
    requires
        circuit.wf(),
        circuit.pins.len() + 8 <= usize::MAX,
        circuit.wires.len() + 8 <= usize::MAX,
        circuit.transistors.len() + 2 <= usize::MAX,
        other.id < circuit.pins.len() + 8,
    ensures
        NotGate::added(circuit).wf(),
        NotGate::added(circuit).pins.len() == circuit.pins.len() + 8,
        NotGate::added(circuit).wires.len() == circuit.wires.len() + 8,
        NotGate::added(circuit).transistors.len() == circuit.transistors.len() + 2,
        circuit.transistors_kept_in(NotGate::added(circuit)),
        NotGate::stands_in(
            NotGate::added(circuit),
            circuit.pins.len(),
            circuit.transistors.len(),
        ),
        NotGate::added(circuit).connected(NotGate::input_pin(circuit.pins.len())) == seq![
            Transistor::gate_pin(circuit.pins.len() + 2),
            Transistor::gate_pin(circuit.pins.len() + 5),
        ],
        NotGate::added(circuit).connected(NotGate::output_pin(circuit.pins.len())) == seq![
            Transistor::drain_pin(circuit.pins.len() + 2),
            Transistor::drain_pin(circuit.pins.len() + 5),
        ],
        NotGate::added(circuit).drive(other) == if other.id >= circuit.pins.len() {
            built_drive(circuit.pins.len(), other)
        } else {
            circuit.drive(other)
        },
        NotGate::added(circuit).pending(other) == if other.id >= circuit.pins.len() {
            None
        } else {
            circuit.pending(other)
        },
        other.id < circuit.pins.len() ==> NotGate::added(circuit).connected(other)
            == circuit.connected(other),
{
    reveal(NotGate::added);
    let pins = circuit.pins.len();
    let high = NotGate::high_rail(pins);
    let low = NotGate::low_rail(pins);
    let n_source = Transistor::source_pin(pins + 2);
    let n_gate = Transistor::gate_pin(pins + 2);
    let n_drain = Transistor::drain_pin(pins + 2);
    let p_source = Transistor::source_pin(pins + 5);
    let p_gate = Transistor::gate_pin(pins + 5);
    let p_drain = Transistor::drain_pin(pins + 5);
    let s0 = parts(circuit);
    lemma_parts(circuit, other);
    lemma_parts(circuit, high);
    lemma_parts(circuit, low);
    lemma_parts(circuit, n_source);
    lemma_parts(circuit, n_gate);
    lemma_parts(circuit, n_drain);
    lemma_parts(circuit, p_source);
    lemma_parts(circuit, p_gate);
    lemma_parts(circuit, p_drain);
    if other.id < pins {
        lemma_connected_contains_self(circuit, other);
        assert(circuit.pin_wf(other.id as int));
        assert(circuit.wire_wf(circuit.wire_of(other).id as int));
    }

    let s1 = s0.connect(n_gate, p_gate);
    lemma_connect_nets(s0, n_gate, p_gate, other);
    lemma_connect_nets(s0, n_gate, p_gate, high);
    lemma_connect_nets(s0, n_gate, p_gate, low);
    lemma_connect_nets(s0, n_gate, p_gate, n_source);
    lemma_connect_nets(s0, n_gate, p_gate, n_gate);
    lemma_connect_nets(s0, n_gate, p_gate, n_drain);
    lemma_connect_nets(s0, n_gate, p_gate, p_source);
    lemma_connect_nets(s0, n_gate, p_gate, p_gate);
    lemma_connect_nets(s0, n_gate, p_gate, p_drain);

    let s2 = s1.connect(n_drain, p_drain);
    lemma_connect_nets(s1, n_drain, p_drain, other);
    lemma_connect_nets(s1, n_drain, p_drain, high);
    lemma_connect_nets(s1, n_drain, p_drain, low);
    lemma_connect_nets(s1, n_drain, p_drain, n_source);
    lemma_connect_nets(s1, n_drain, p_drain, n_gate);
    lemma_connect_nets(s1, n_drain, p_drain, n_drain);
    lemma_connect_nets(s1, n_drain, p_drain, p_source);
    lemma_connect_nets(s1, n_drain, p_drain, p_gate);
    lemma_connect_nets(s1, n_drain, p_drain, p_drain);

    let s3 = s2.connect(low, n_source);
    lemma_connect_nets(s2, low, n_source, other);
    lemma_connect_nets(s2, low, n_source, high);
    lemma_connect_nets(s2, low, n_source, low);
    lemma_connect_nets(s2, low, n_source, n_source);
    lemma_connect_nets(s2, low, n_source, n_gate);
    lemma_connect_nets(s2, low, n_source, n_drain);
    lemma_connect_nets(s2, low, n_source, p_source);
    lemma_connect_nets(s2, low, n_source, p_gate);
    lemma_connect_nets(s2, low, n_source, p_drain);

    let s4 = s3.connect(high, p_source);
    lemma_connect_nets(s3, high, p_source, other);
    lemma_connect_nets(s3, high, p_source, high);
    lemma_connect_nets(s3, high, p_source, low);
    lemma_connect_nets(s3, high, p_source, n_source);
    lemma_connect_nets(s3, high, p_source, n_gate);
    lemma_connect_nets(s3, high, p_source, n_drain);
    lemma_connect_nets(s3, high, p_source, p_source);
    lemma_connect_nets(s3, high, p_source, p_gate);
    lemma_connect_nets(s3, high, p_source, p_drain);
    assert(s4 == NotGate::added(circuit));
    assert(s4.connected(n_gate) =~= seq![n_gate, p_gate]);
    assert(s4.connected(n_drain) =~= seq![n_drain, p_drain]);
    assert(s4.connected(low) =~= seq![low, n_source]);
    assert(s4.connected(high) =~= seq![high, p_source]);
    lemma_connected_is_shared(s4, n_gate, 1);
    lemma_connected_is_shared(s4, n_drain, 1);
}

/// What the transistors of a NOT gate decide when the input reads high or low: the one
/// that the input switches on passes its rail on, the other lets go.
proof fn lemma_decisions(circuit: CircuitView, pins: nat, first: nat, input: bool)
    requires
        circuit.wf(),
        NotGate::stands_in(circuit, pins, first),
        circuit.read(NotGate::input_pin(pins)) == LogicValue::Driven(input),
    ensures
        NotGate::nmos_of(first).next_drain(circuit) == Some(
            if input {
                LogicValue::Driven(false)
            } else {
                LogicValue::HighImpedance
            },
        ),
        NotGate::pmos_of(first).next_drain(circuit) == Some(
            if input {
                LogicValue::HighImpedance
            } else {
                LogicValue::Driven(true)
            },
        ),
{
    let low = NotGate::low_rail(pins);
    let high = NotGate::high_rail(pins);
    lemma_connected_is_shared(circuit, low, 1);
    lemma_connected_is_shared(circuit, high, 1);
    lemma_read_is_resolved(circuit, low);
    lemma_read_is_resolved(circuit, high);
    let low_drives = drives_of(circuit.pins, circuit.connected(low));
    let high_drives = drives_of(circuit.pins, circuit.connected(high));
    assert(low_drives[0] == DriveValue::Strong(false));
    assert(low_drives[1] == DriveValue::HighImpedance);
    assert(high_drives[0] == DriveValue::Strong(true));
    assert(high_drives[1] == DriveValue::HighImpedance);
    assert(circuit.read(Transistor::source_pin(pins + 2)) == LogicValue::Driven(false));
    assert(circuit.read(Transistor::source_pin(pins + 5)) == LogicValue::Driven(true));
}

/// A tick of a NOT gate leaves it standing as it was built.
pub proof fn lemma_gate_stands(circuit: CircuitView, pins: nat, first: nat)
    requires
        circuit.wf(),
        circuit.quiet(),
        NotGate::stands_in(circuit, pins, first),
    ensures
        circuit.ready(transistor_range(first, 2)),
        circuit.after_tick(transistor_range(first, 2)).wf(),
        circuit.after_tick(transistor_range(first, 2)).quiet(),
        NotGate::stands_in(circuit.after_tick(transistor_range(first, 2)), pins, first),
        NotGate::nmos_of(first).state(
            circuit.after_tick(transistor_range(first, 2)),
        ).error_hysteresis == !(circuit.read(NotGate::input_pin(pins)) is Driven),
        NotGate::pmos_of(first).state(
            circuit.after_tick(transistor_range(first, 2)),
        ).error_hysteresis == !(circuit.read(NotGate::input_pin(pins)) is Driven),
{
    let transistors = transistor_range(first, 2);
    let after = circuit.after_tick(transistors);
    let nmos = NotGate::nmos_of(first);
    let pmos = NotGate::pmos_of(first);
    let input = NotGate::input_pin(pins);
    let output = NotGate::output_pin(pins);
    let p_gate = Transistor::gate_pin(pins + 5);
    let p_drain = Transistor::drain_pin(pins + 5);
    lemma_range_is_ready(circuit, first, 2);
    assert(transistors[0] == nmos);
    assert(transistors[1] == pmos);
    assert(transistors.contains(nmos));
    assert(transistors.contains(pmos));
    lemma_transistor_of_drain(circuit, transistors, 0);
    lemma_transistor_of_drain(circuit, transistors, 1);
    lemma_tick_drives_the_drains(circuit, transistors, input);
    lemma_tick_drives_the_drains(circuit, transistors, output);
    lemma_tick_drives_the_drains(circuit, transistors, p_gate);
    lemma_tick_drives_the_drains(circuit, transistors, p_drain);
    lemma_tick_drives_the_drains(circuit, transistors, NotGate::low_rail(pins));
    lemma_tick_drives_the_drains(circuit, transistors, NotGate::high_rail(pins));
    lemma_tick_drives_the_drains(circuit, transistors, Transistor::source_pin(pins + 2));
    lemma_tick_drives_the_drains(circuit, transistors, Transistor::source_pin(pins + 5));
    lemma_tick_sets_the_flags(circuit, transistors, nmos);
    lemma_tick_sets_the_flags(circuit, transistors, pmos);
    lemma_connected_contains_self(circuit, output);
    lemma_connected_contains_self(circuit, p_drain);
    let on_output = circuit.connected(output);
    let d = choose|i: int| 0 <= i < on_output.len() && on_output[i] == p_drain;
    lemma_connected_is_shared(after, output, d);
    lemma_connected_contains_self(circuit, input);
    lemma_connected_contains_self(circuit, p_gate);
    let on_input = circuit.connected(input);
    let g = choose|i: int| 0 <= i < on_input.len() && on_input[i] == p_gate;
    lemma_connected_is_shared(after, input, g);
    lemma_connected_is_shared(circuit, input, g);
}

/// A NOT gate inverts. When its input reads high or low, and nothing else drives
/// its output, one tick makes the output read the opposite. It then
/// stands as before.
pub proof fn lemma_not_gate_inverts(circuit: CircuitView, pins: nat, first: nat, input: bool)
    requires
        circuit.wf(),
        circuit.quiet(),
        NotGate::stands_in(circuit, pins, first),
        NotGate::alone_on_output(circuit, pins),
        circuit.read(NotGate::input_pin(pins)) == LogicValue::Driven(input),
    ensures
        circuit.ready(transistor_range(first, 2)),
        circuit.after_tick(transistor_range(first, 2)).read(NotGate::output_pin(pins))
            == LogicValue::Driven(!input),
        circuit.after_tick(transistor_range(first, 2)).wf(),
        circuit.after_tick(transistor_range(first, 2)).quiet(),
        NotGate::stands_in(circuit.after_tick(transistor_range(first, 2)), pins, first),
        NotGate::alone_on_output(circuit.after_tick(transistor_range(first, 2)), pins),
{
    let transistors = transistor_range(first, 2);
    let after = circuit.after_tick(transistors);
    let nmos = NotGate::nmos_of(first);
    let pmos = NotGate::pmos_of(first);
    let output = NotGate::output_pin(pins);
    let n_drain = Transistor::drain_pin(pins + 2);
    let p_drain = Transistor::drain_pin(pins + 5);
    let on_output = circuit.connected(output);
    lemma_gate_stands(circuit, pins, first);
    assert(transistors[0] == nmos);
    assert(transistors[1] == pmos);
    lemma_decisions(circuit, pins, first, input);
    lemma_transistor_of_drain(circuit, transistors, 0);
    lemma_transistor_of_drain(circuit, transistors, 1);
    lemma_tick_drives_the_drains(circuit, transistors, n_drain);
    lemma_tick_drives_the_drains(circuit, transistors, p_drain);
    lemma_tick_drives_the_drains(circuit, transistors, output);

    // The pins of the two drains are on the output, and nothing else there drives.
    lemma_connected_contains_self(circuit, output);
    lemma_connected_contains_self(circuit, p_drain);
    let n = choose|i: int| 0 <= i < on_output.len() && on_output[i] == n_drain;
    let p = choose|i: int| 0 <= i < on_output.len() && on_output[i] == p_drain;
    let drives = drives_of(after.pins, on_output);
    assert forall|i: int| 0 <= i < on_output.len() implies #[trigger] drives[i] == if on_output[i]
        == n_drain {
        after.drive(n_drain)
    } else if on_output[i] == p_drain {
        after.drive(p_drain)
    } else {
        DriveValue::HighImpedance
    } by {
        lemma_connected_is_shared(circuit, output, i);
        lemma_tick_drives_the_drains(circuit, transistors, on_output[i]);
        if circuit.is_drain_of(transistors, on_output[i]) {
            let k = choose|k: int|
                0 <= k < transistors.len() && (#[trigger] transistors[k]).state(circuit).drain
                    == on_output[i];
        }
    }
    lemma_read_is_resolved(after, output);
    assert(drives[n] == after.drive(n_drain));
    assert(drives[p] == after.drive(p_drain));

    // It stands as before.
    assert forall|i: int| 0 <= i < after.connected(output).len() implies {
        let pin = #[trigger] after.connected(output)[i];
        ||| pin == n_drain
        ||| pin == p_drain
        ||| after.drive(pin) == DriveValue::HighImpedance
    } by {
        assert(drives[i] == after.drive(on_output[i]));
    }
}

/// A tick of a NOT gate does not change what its input reads, when the output is not fed
/// back to the input.
proof fn lemma_input_keeps_reading(circuit: CircuitView, pins: nat, first: nat)
    requires
        circuit.wf(),
        circuit.quiet(),
        NotGate::stands_in(circuit, pins, first),
        circuit.wire_of(NotGate::input_pin(pins)) != circuit.wire_of(NotGate::output_pin(pins)),
    ensures
        circuit.after_tick(transistor_range(first, 2)).read(NotGate::input_pin(pins))
            == circuit.read(NotGate::input_pin(pins)),
        circuit.after_tick(transistor_range(first, 2)).wire_of(NotGate::input_pin(pins))
            != circuit.after_tick(transistor_range(first, 2)).wire_of(NotGate::output_pin(pins)),
{
    let transistors = transistor_range(first, 2);
    let after = circuit.after_tick(transistors);
    let input = NotGate::input_pin(pins);
    let output = NotGate::output_pin(pins);
    let on_input = circuit.connected(input);
    lemma_range_is_ready(circuit, first, 2);
    assert(transistors[0] == NotGate::nmos_of(first));
    assert(transistors[1] == NotGate::pmos_of(first));
    lemma_tick_drives_the_drains(circuit, transistors, input);
    lemma_tick_drives_the_drains(circuit, transistors, output);
    lemma_connected_contains_self(circuit, input);
    lemma_connected_contains_self(circuit, output);
    lemma_connected_contains_self(after, input);
    lemma_connected_contains_self(after, output);
    assert forall|i: int| 0 <= i < on_input.len() implies circuit.pins[(
    #[trigger] on_input[i]).id as int].current_drive
        == after.pins[on_input[i].id as int].current_drive by {
        lemma_connected_is_shared(circuit, input, i);
        lemma_tick_drives_the_drains(circuit, transistors, on_input[i]);
        if circuit.is_drain_of(transistors, on_input[i]) {
            let k = choose|k: int|
                0 <= k < transistors.len() && (#[trigger] transistors[k]).state(circuit).drain
                    == on_input[i];
        }
    }
    assert(drives_of(circuit.pins, on_input) =~= drives_of(after.pins, on_input));
    lemma_read_is_resolved(circuit, input);
    lemma_read_is_resolved(after, input);
    if after.wire_of(input) == after.wire_of(output) {
        let i = choose|i: int| 0 <= i < on_input.len() && on_input[i] == input;
        assert(after.connected(output) == circuit.connected(input));
        let k = choose|k: int|
            0 <= k < circuit.connected(output).len() && circuit.connected(output)[k] == output;
        lemma_connected_is_shared(circuit, output, k);
        let j = choose|j: int| 0 <= j < on_input.len() && on_input[j] == output;
        lemma_connected_is_shared(circuit, input, j);
    }
}

/// A NOT gate comes to rest after one tick. When its input reads high or low, nothing
/// else drives its output, and the output is not fed back to the input, then after one
/// tick the output reads the opposite of the input, and a further tick changes
/// nothing.
pub proof fn lemma_not_gate_rests(circuit: CircuitView, pins: nat, first: nat, input: bool)
    requires
        circuit.wf(),
        circuit.quiet(),
        NotGate::stands_in(circuit, pins, first),
        NotGate::alone_on_output(circuit, pins),
        circuit.read(NotGate::input_pin(pins)) == LogicValue::Driven(input),
        circuit.wire_of(NotGate::input_pin(pins)) != circuit.wire_of(NotGate::output_pin(pins)),
    ensures
        circuit.after_tick(transistor_range(first, 2)).read(NotGate::output_pin(pins))
            == LogicValue::Driven(!input),
        !circuit.after_tick(transistor_range(first, 2)).tick_changed(transistor_range(first, 2)),
{
    let transistors = transistor_range(first, 2);
    let after = circuit.after_tick(transistors);
    let nmos = NotGate::nmos_of(first);
    let pmos = NotGate::pmos_of(first);
    lemma_not_gate_inverts(circuit, pins, first, input);
    lemma_input_keeps_reading(circuit, pins, first);
    assert(transistors[0] == nmos);
    assert(transistors[1] == pmos);
    lemma_decisions(circuit, pins, first, input);
    lemma_decisions(after, pins, first, input);
    lemma_transistor_of_drain(circuit, transistors, 0);
    lemma_transistor_of_drain(circuit, transistors, 1);
    lemma_tick_drives_the_drains(circuit, transistors, Transistor::drain_pin(pins + 2));
    lemma_tick_drives_the_drains(circuit, transistors, Transistor::drain_pin(pins + 5));
    lemma_range_is_ready(after, first, 2);
    lemma_tick_is_simultaneous(after, transistors);
    lemma_transistor_of_drain(after, transistors, 0);
    lemma_transistor_of_drain(after, transistors, 1);
    assert(!nmos.tick_changed(after));
    assert(!pmos.tick_changed(after));
    let decided = after.decided(transistors);
    assert forall|pin: Pin| decided.has_pin(pin) && decided.is_pin_of(transistors, pin) implies !(
    #[trigger] decided.tick_pin_changed(pin)) by {
        assert(Pin { id: pin.id as int as usize } == pin);
        if after.is_drain_of(transistors, pin) {
            let k = choose|k: int|
                0 <= k < transistors.len() && (#[trigger] transistors[k]).state(after).drain
                    == pin;
            lemma_transistor_of_drain(after, transistors, k);
        }
    }
}

/// A NOT gate reports an input that is not driven. While its input reads high impedance or
/// error, and the output is not fed back to the input, the output reads error after two
/// ticks: the first tick may pass without anything to show.
pub proof fn lemma_not_gate_reports_undriven_input(circuit: CircuitView, pins: nat, first: nat)
    requires
        circuit.wf(),
        circuit.quiet(),
        NotGate::stands_in(circuit, pins, first),
        !(circuit.read(NotGate::input_pin(pins)) is Driven),
        circuit.wire_of(NotGate::input_pin(pins)) != circuit.wire_of(NotGate::output_pin(pins)),
    ensures
        circuit.after_tick(transistor_range(first, 2)).after_tick(
            transistor_range(first, 2),
        ).read(NotGate::output_pin(pins)) == LogicValue::Error,
{
    let transistors = transistor_range(first, 2);
    let once = circuit.after_tick(transistors);
    let twice = once.after_tick(transistors);
    let nmos = NotGate::nmos_of(first);
    let output = NotGate::output_pin(pins);
    lemma_gate_stands(circuit, pins, first);
    lemma_input_keeps_reading(circuit, pins, first);
    lemma_gate_stands(once, pins, first);
    assert(transistors[0] == nmos);
    lemma_transistor_of_drain(once, transistors, 0);
    lemma_tick_drives_the_drains(once, transistors, output);
    assert(twice.drive(output) == DriveValue::Error);
    lemma_connected_contains_self(twice, output);
    lemma_read_is_resolved(twice, output);
    let on_output = twice.connected(output);
    let i = choose|i: int| 0 <= i < on_output.len() && on_output[i] == output;
    assert(drives_of(twice.pins, on_output)[i] == DriveValue::Error);
}

/// The circuit in which a NOT gate was built and a pin that drives `drive` was connected
/// to its input.
pub open spec fn inverter(circuit: CircuitView, drive: DriveValue) -> CircuitView {
    NotGate::added(circuit).add_pin(drive).connect(
        Pin { id: (circuit.pins.len() + 8) as usize },
        NotGate::input_pin(circuit.pins.len()),
    )
}

/// The inverter. Build a NOT gate in a circuit at rest and connect a pin that drives high
/// or low, strongly or weakly, to its input: after one tick its output reads the
/// opposite, and a further tick changes nothing.
pub proof fn lemma_inverter(circuit: CircuitView, drive: DriveValue, value: bool)
    requires
        circuit.wf(),
        circuit.quiet(),
        circuit.pins.len() + 9 <= usize::MAX,
        circuit.wires.len() + 9 <= usize::MAX,
        circuit.transistors.len() + 2 <= usize::MAX,
        drive.logic() == LogicValue::Driven(value),
    ensures
        inverter(circuit, drive).wf(),
        inverter(circuit, drive).ready(transistor_range(circuit.transistors.len(), 2)),
        inverter(circuit, drive).after_tick(transistor_range(circuit.transistors.len(), 2)).read(
            NotGate::output_pin(circuit.pins.len()),
        ) == LogicValue::Driven(!value),
        !inverter(circuit, drive).after_tick(
            transistor_range(circuit.transistors.len(), 2),
        ).tick_changed(transistor_range(circuit.transistors.len(), 2)),
{
    let pins = circuit.pins.len();
    let first = circuit.transistors.len();
    let high = NotGate::high_rail(pins);
    let low = NotGate::low_rail(pins);
    let n_source = Transistor::source_pin(pins + 2);
    let n_gate = Transistor::gate_pin(pins + 2);
    let n_drain = Transistor::drain_pin(pins + 2);
    let p_source = Transistor::source_pin(pins + 5);
    let p_gate = Transistor::gate_pin(pins + 5);
    let p_drain = Transistor::drain_pin(pins + 5);
    let test = Pin { id: (pins + 8) as usize };
    let built = NotGate::added(circuit);
    let with_pin = built.add_pin(drive);
    let wired = inverter(circuit, drive);

    lemma_added_nets(circuit, high);
    lemma_added_nets(circuit, low);
    lemma_added_nets(circuit, n_source);
    lemma_added_nets(circuit, n_gate);
    lemma_added_nets(circuit, n_drain);
    lemma_added_nets(circuit, p_source);
    lemma_added_nets(circuit, p_gate);
    lemma_added_nets(circuit, p_drain);

    lemma_add_pin_alone(built, drive, test);
    lemma_add_pin_alone(built, drive, high);
    lemma_add_pin_alone(built, drive, low);
    lemma_add_pin_alone(built, drive, n_source);
    lemma_add_pin_alone(built, drive, n_gate);
    lemma_add_pin_alone(built, drive, n_drain);
    lemma_add_pin_alone(built, drive, p_source);
    lemma_add_pin_alone(built, drive, p_gate);
    lemma_add_pin_alone(built, drive, p_drain);

    lemma_connect_nets(with_pin, test, n_gate, test);
    lemma_connect_nets(with_pin, test, n_gate, high);
    lemma_connect_nets(with_pin, test, n_gate, low);
    lemma_connect_nets(with_pin, test, n_gate, n_source);
    lemma_connect_nets(with_pin, test, n_gate, n_gate);
    lemma_connect_nets(with_pin, test, n_gate, n_drain);
    lemma_connect_nets(with_pin, test, n_gate, p_source);
    lemma_connect_nets(with_pin, test, n_gate, p_gate);
    lemma_connect_nets(with_pin, test, n_gate, p_drain);
    let on_input = wired.connected(n_gate);
    assert(on_input =~= seq![test, n_gate, p_gate]);
    assert(wired.connected(n_drain) =~= seq![n_drain, p_drain]);
    assert(wired.connected(low) =~= seq![low, n_source]);
    assert(wired.connected(high) =~= seq![high, p_source]);
    lemma_connected_is_shared(wired, n_gate, 2);
    lemma_connected_is_shared(wired, n_drain, 1);
    assert(NotGate::stands_in(wired, pins, first));
    assert(NotGate::alone_on_output(wired, pins));

    // Nothing is recorded on any pin.
    assert forall|p: int| 0 <= p < wired.pins.len() implies
        (#[trigger] wired.pins[p]).next_drive is None by {
        let pin = Pin { id: p as usize };
        if p < pins + 8 {
            lemma_added_nets(circuit, pin);
        }
        lemma_add_pin_alone(built, drive, pin);
        lemma_connect_nets(with_pin, test, n_gate, pin);
    }

    // The input reads what the pin drives.
    lemma_read_is_resolved(wired, n_gate);
    let drives = drives_of(wired.pins, on_input);
    assert(drives[0] == drive);
    assert(drives[1] == DriveValue::HighImpedance);
    assert(drives[2] == DriveValue::HighImpedance);
    assert(wired.read(n_gate) == LogicValue::Driven(value));
    if wired.wire_of(n_gate) == wired.wire_of(n_drain) {
        assert(wired.connected(n_gate).len() == wired.connected(n_drain).len());
    }
    lemma_not_gate_inverts(wired, pins, first, value);
    lemma_not_gate_rests(wired, pins, first, value);
}

} // verus!
