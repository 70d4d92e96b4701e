use digital_logic::circuit::wire::Wire;
use digital_logic::circuit::TransistorState;
use digital_logic::Circuit;
use digital_logic::DriveValue;
use digital_logic::LogicValue;
use digital_logic::Pin;
use digital_logic::Transistor;

#[test]
fn test_wire_of_a_new_pin() {
    let mut circuit = Circuit::new();
    let pin = Pin::new(&mut circuit, DriveValue::Weak(true));
    let wire = Wire { id: 0 };
    assert_eq!(wire.read(&circuit), LogicValue::Driven(true));
    assert_eq!(wire.get_all_pins(&circuit), vec![pin]);
}

#[test]
fn test_new_wire_is_empty_until_its_pin_is_set() {
    let mut circuit = Circuit::new();
    let pin = Pin::new(&mut circuit, DriveValue::Strong(false));
    let wire = Wire::new(&mut circuit);
    assert_eq!(wire, Wire { id: 1 });
    assert_eq!(wire.read(&circuit), LogicValue::HighImpedance);
    assert!(wire.get_all_pins(&circuit).is_empty());

    wire.set_initial_pin(&mut circuit, pin);
    assert_eq!(wire.read(&circuit), LogicValue::Driven(false));
    assert_eq!(wire.get_all_pins(&circuit), vec![pin]);
}

#[test]
fn test_wire_update_pin_refreshes_the_value() {
    let mut circuit = Circuit::new();
    Pin::new(&mut circuit, DriveValue::Strong(true));
    let wire = Wire { id: 0 };
    wire.update_pin(&mut circuit, DriveValue::Strong(true), DriveValue::Weak(false));
    assert_eq!(wire.read(&circuit), LogicValue::Driven(false));
    wire.update_pin(&mut circuit, DriveValue::HighImpedance, DriveValue::Weak(true));
    assert_eq!(wire.read(&circuit), LogicValue::Error);
    wire.update_pin(&mut circuit, DriveValue::Weak(false), DriveValue::HighImpedance);
    assert_eq!(wire.read(&circuit), LogicValue::Driven(true));
}

#[test]
fn test_wire_connect_merges_the_second_into_the_first() {
    let mut circuit = Circuit::new();
    let first = Pin::new(&mut circuit, DriveValue::Weak(false));
    let second = Pin::new(&mut circuit, DriveValue::HighImpedance);
    let third = Pin::new(&mut circuit, DriveValue::Strong(true));
    Wire::connect(&mut circuit, Wire { id: 2 }, Wire { id: 0 });
    assert_eq!(Wire { id: 2 }.get_all_pins(&circuit), vec![third, first]);
    assert!(Wire { id: 0 }.get_all_pins(&circuit).is_empty());
    assert_eq!(Wire { id: 0 }.read(&circuit), LogicValue::HighImpedance);
    assert_eq!(Wire { id: 2 }.read(&circuit), LogicValue::Driven(true));
    assert_eq!(first.read(&circuit), LogicValue::Driven(true));
    assert_eq!(second.read(&circuit), LogicValue::HighImpedance);

    // Merging a wire into itself changes nothing.
    Wire::connect(&mut circuit, Wire { id: 2 }, Wire { id: 2 });
    assert_eq!(Wire { id: 2 }.get_all_pins(&circuit), vec![third, first]);

    // An emptied wire can take pins again.
    Wire::connect(&mut circuit, Wire { id: 0 }, Wire { id: 1 });
    assert_eq!(second.get_connected_pins(&circuit), vec![second]);
    Wire::connect(&mut circuit, Wire { id: 0 }, Wire { id: 2 });
    assert_eq!(first.get_connected_pins(&circuit), vec![second, third, first]);
    assert_eq!(second.read(&circuit), LogicValue::Driven(true));
}

#[test]
fn test_pin_set_wire_moves_the_reading() {
    let mut circuit = Circuit::new();
    let low = Pin::new(&mut circuit, DriveValue::Strong(false));
    let high = Pin::new(&mut circuit, DriveValue::Strong(true));
    low.set_wire(&mut circuit, Wire { id: 1 });
    assert_eq!(low.read(&circuit), LogicValue::Driven(true));
    assert_eq!(low.get_drive(&circuit), DriveValue::Strong(false));
    assert_eq!(low.get_connected_pins(&circuit), vec![high]);
}

#[test]
fn test_transistor_records() {
    let mut circuit = Circuit::new();
    let nmos = Transistor::new(&mut circuit, true);
    let pmos = Transistor::new(&mut circuit, false);
    assert_eq!(circuit.num_transistors(), 2);
    assert_eq!(
        circuit.transistor(nmos.index),
        TransistorState {
            source: Pin { id: 0 },
            gate: Pin { id: 1 },
            drain: Pin { id: 2 },
            activation: true,
            error_hysteresis: false,
        }
    );
    circuit.set_error_hysteresis(pmos.index, true);
    assert_eq!(
        circuit.transistor(pmos.index),
        TransistorState {
            source: Pin { id: 3 },
            gate: Pin { id: 4 },
            drain: Pin { id: 5 },
            activation: false,
            error_hysteresis: true,
        }
    );
    assert!(!circuit.transistor(nmos.index).error_hysteresis);
    let record = circuit.transistor(nmos.index);
    assert_eq!(circuit.add_transistor(record), 2);
    assert_eq!(circuit.transistor(2), record);
}
