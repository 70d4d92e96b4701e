use digital_logic::drive_values;
use digital_logic::settle;
use digital_logic::tick;
use digital_logic::AnyDevice;
use digital_logic::Circuit;
use digital_logic::Constant;
use digital_logic::Device;
use digital_logic::DeviceContainer;
use digital_logic::DriveValue;
use digital_logic::FullAdder;
use digital_logic::LogicValue;
use digital_logic::NotGate;
use digital_logic::Pin;
use digital_logic::TestPin;
use digital_logic::Transistor;

// What a set of drives on one wire resolves to, by the rules of the wire.
fn resolve(drives: &[DriveValue]) -> LogicValue {
    let has = |d: DriveValue| drives.contains(&d);
    if has(DriveValue::Error)
        || (has(DriveValue::Strong(true)) && has(DriveValue::Strong(false)))
        || (has(DriveValue::Weak(true)) && has(DriveValue::Weak(false)))
    {
        LogicValue::Error
    } else if has(DriveValue::Strong(true)) {
        LogicValue::Driven(true)
    } else if has(DriveValue::Strong(false)) {
        LogicValue::Driven(false)
    } else if has(DriveValue::Weak(true)) {
        LogicValue::Driven(true)
    } else if has(DriveValue::Weak(false)) {
        LogicValue::Driven(false)
    } else {
        LogicValue::HighImpedance
    }
}

// Every pin reads what the drives of the pins connected to it resolve to.
fn assert_reads_are_resolved(circuit: &Circuit) {
    for id in 0..circuit.num_pins() {
        let pin = Pin { id };
        let connected = pin.get_connected_pins(circuit);
        assert!(connected.contains(&pin));
        let drives: Vec<DriveValue> = connected.iter().map(|p| p.get_drive(circuit)).collect();
        assert_eq!(pin.read(circuit), resolve(&drives));
        for other in connected.iter() {
            assert_eq!(other.get_connected_pins(circuit), connected);
        }
    }
}

// One NMOS transistor with test pins on its control pin and on its source.
struct Bench {
    circuit: Circuit,
    nmos: Transistor,
    control: TestPin,
    source: TestPin,
    device: AnyDevice,
}

fn bench(control: DriveValue, source: DriveValue) -> Bench {
    let mut circuit = Circuit::new();
    let nmos = Transistor::new_nmos(&mut circuit);
    let control = TestPin::new(&mut circuit, control);
    let source = TestPin::new(&mut circuit, source);
    let nmos_control = nmos.get_gate(&circuit);
    let nmos_source = nmos.get_source(&circuit);
    Pin::connect(&mut circuit, control.get_output(), nmos_control);
    Pin::connect(&mut circuit, source.get_output(), nmos_source);
    let device = nmos.as_any(&circuit);
    Bench { circuit, nmos, control, source, device }
}

#[test]
fn test_single_nmos_follows_its_source_when_switched_on() {
    for value in [true, false] {
        let mut b = bench(DriveValue::Strong(true), DriveValue::Strong(value));
        assert_eq!(settle(&mut b.circuit, &b.device), 1);
        assert_eq!(b.nmos.get_drain(&b.circuit).read(&b.circuit), LogicValue::Driven(value));
        assert_eq!(
            b.nmos.get_drain(&b.circuit).get_drive(&b.circuit),
            DriveValue::Strong(value)
        );
        assert_reads_are_resolved(&b.circuit);
    }
}

#[test]
fn test_single_nmos_is_cut_off_when_switched_off() {
    let mut b = bench(DriveValue::Strong(false), DriveValue::Strong(true));
    assert_eq!(settle(&mut b.circuit, &b.device), 0);
    assert_eq!(b.nmos.get_drain(&b.circuit).read(&b.circuit), LogicValue::HighImpedance);
    // Switched on, it follows; switched off again, it lets go.
    b.control.set_drive(&mut b.circuit, DriveValue::Strong(true));
    assert_eq!(settle(&mut b.circuit, &b.device), 1);
    assert_eq!(b.nmos.get_drain(&b.circuit).read(&b.circuit), LogicValue::Driven(true));
    b.source.set_drive(&mut b.circuit, DriveValue::Weak(false));
    assert_eq!(settle(&mut b.circuit, &b.device), 1);
    assert_eq!(b.nmos.get_drain(&b.circuit).read(&b.circuit), LogicValue::Driven(false));
    b.control.set_drive(&mut b.circuit, DriveValue::Strong(false));
    assert_eq!(settle(&mut b.circuit, &b.device), 1);
    assert_eq!(b.nmos.get_drain(&b.circuit).read(&b.circuit), LogicValue::HighImpedance);
}

#[test]
fn test_single_nmos_reports_an_undriven_control_pin_on_the_second_tick() {
    let mut b = bench(DriveValue::HighImpedance, DriveValue::Strong(true));
    let drain = b.nmos.get_drain(&b.circuit);
    // The first tick changes nothing that shows, but it is reported as a change.
    assert!(tick(&mut b.circuit, &b.device));
    assert_eq!(drain.read(&b.circuit), LogicValue::HighImpedance);
    // The second tick shows the error.
    assert!(tick(&mut b.circuit, &b.device));
    assert_eq!(drain.read(&b.circuit), LogicValue::Error);
    // The third changes nothing.
    assert!(!tick(&mut b.circuit, &b.device));
    assert_eq!(drain.read(&b.circuit), LogicValue::Error);

    // A control pin that is driven for a tick clears the delay again.
    b.control.set_drive(&mut b.circuit, DriveValue::Strong(false));
    assert_eq!(settle(&mut b.circuit, &b.device), 1);
    assert_eq!(drain.read(&b.circuit), LogicValue::HighImpedance);
    b.control.set_drive(&mut b.circuit, DriveValue::Error);
    assert!(tick(&mut b.circuit, &b.device));
    assert_eq!(drain.read(&b.circuit), LogicValue::HighImpedance);
    assert!(tick(&mut b.circuit, &b.device));
    assert_eq!(drain.read(&b.circuit), LogicValue::Error);
}

#[test]
fn test_inverter_scenario() {
    let mut circuit = Circuit::new();
    let not_gate = NotGate::new(&mut circuit);
    let input = TestPin::new(&mut circuit, DriveValue::Strong(true));
    Pin::connect(&mut circuit, input.get_output(), not_gate.get_input());
    let device = not_gate.as_any(&circuit);

    assert_eq!(settle(&mut circuit, &device), 1);
    assert_eq!(not_gate.get_output().read(&circuit), LogicValue::Driven(false));
    assert_reads_are_resolved(&circuit);

    input.set_drive(&mut circuit, DriveValue::Strong(false));
    assert_eq!(settle(&mut circuit, &device), 1);
    assert_eq!(not_gate.get_output().read(&circuit), LogicValue::Driven(true));

    input.set_drive(&mut circuit, DriveValue::HighImpedance);
    assert!(tick(&mut circuit, &device));
    assert_eq!(not_gate.get_output().read(&circuit), LogicValue::Driven(true));
    assert!(tick(&mut circuit, &device));
    assert_eq!(not_gate.get_output().read(&circuit), LogicValue::Error);
    assert!(!tick(&mut circuit, &device));
    assert_reads_are_resolved(&circuit);
}

#[test]
fn test_settle_is_idempotent() {
    let mut circuit = Circuit::new();
    let adder = FullAdder::new(&mut circuit);
    let a = TestPin::new(&mut circuit, DriveValue::HighImpedance);
    let b = TestPin::new(&mut circuit, DriveValue::HighImpedance);
    let carry_in = TestPin::new(&mut circuit, DriveValue::HighImpedance);
    Pin::connect(&mut circuit, a.get_output(), adder.get_a());
    Pin::connect(&mut circuit, b.get_output(), adder.get_b());
    Pin::connect(&mut circuit, carry_in.get_output(), adder.get_carry_in());
    let device = adder.as_any(&circuit);
    for value_a in drive_values().iter() {
        for value_b in drive_values().iter() {
            a.set_drive(&mut circuit, *value_a);
            b.set_drive(&mut circuit, *value_b);
            carry_in.set_drive(&mut circuit, DriveValue::Weak(true));
            settle(&mut circuit, &device);
            assert_reads_are_resolved(&circuit);
            let sum = adder.get_sum().read(&circuit);
            let carry = adder.get_carry().read(&circuit);
            assert!(!tick(&mut circuit, &device));
            assert_eq!(settle(&mut circuit, &device), 0);
            assert_eq!(adder.get_sum().read(&circuit), sum);
            assert_eq!(adder.get_carry().read(&circuit), carry);
        }
    }
}

// Both phases of a tick are strict: what a transistor decides shows only after every
// transistor has decided, so that the order of the children does not matter.
#[test]
fn test_tick_does_not_depend_on_the_order_of_devices() {
    let build = |reverse: bool| {
        let mut circuit = Circuit::new();
        let first = NotGate::new(&mut circuit);
        let second = NotGate::new(&mut circuit);
        let input = TestPin::new(&mut circuit, DriveValue::Strong(true));
        Pin::connect(&mut circuit, input.get_output(), first.get_input());
        Pin::connect(&mut circuit, first.get_output(), second.get_input());
        let mut children = vec![
            ("first".to_string(), DeviceContainer::Single(first.as_any(&circuit))),
            ("second".to_string(), DeviceContainer::Single(second.as_any(&circuit))),
        ];
        if reverse {
            children.reverse();
        }
        let device = AnyDevice::composite("Pair".to_string(), vec![], children);
        let mut readings = vec![];
        for _ in 0..6 {
            let changed = tick(&mut circuit, &device);
            readings.push((
                changed,
                first.get_output().read(&circuit),
                second.get_output().read(&circuit),
            ));
        }
        readings
    };
    let forward = build(false);
    assert_eq!(forward, build(true));
    assert_eq!(
        forward.last(),
        Some(&(false, LogicValue::Driven(false), LogicValue::Driven(true)))
    );
}

#[test]
fn test_only_the_transistors_of_the_device_are_ticked() {
    let mut circuit = Circuit::new();
    let inside = NotGate::new(&mut circuit);
    let outside = NotGate::new(&mut circuit);
    let high = Constant::new_strong(&mut circuit, true);
    Pin::connect(&mut circuit, high.get_output(), inside.get_input());
    Pin::connect(&mut circuit, high.get_output(), outside.get_input());
    let device = inside.as_any(&circuit);
    settle(&mut circuit, &device);
    assert_eq!(inside.get_output().read(&circuit), LogicValue::Driven(false));
    assert_eq!(outside.get_output().read(&circuit), LogicValue::HighImpedance);
}

#[test]
fn test_conversions_round_trip() {
    for drive in drive_values().iter() {
        let back = DriveValue::from(LogicValue::from(*drive));
        let expected = match drive {
            DriveValue::Weak(value) => DriveValue::Strong(*value),
            other => *other,
        };
        assert_eq!(back, expected);
    }
    for logic in [
        LogicValue::Driven(true),
        LogicValue::Driven(false),
        LogicValue::HighImpedance,
        LogicValue::Error,
    ] {
        assert_eq!(LogicValue::from(DriveValue::from(logic)), logic);
    }
}

#[test]
fn test_device_is_of_its_circuit_only() {
    let mut circuit = Circuit::new();
    let not_gate = NotGate::new(&mut circuit);
    let device = not_gate.as_any(&circuit);
    assert!(device.is_of(&circuit));
    assert!(!device.is_of(&Circuit::new()));
    let stray = AnyDevice::composite(
        "Stray".to_string(),
        vec![("p".to_string(), DeviceContainer::Multiple(vec![Pin { id: 0 }, Pin { id: 8 }]))],
        vec![],
    );
    assert!(!stray.is_of(&circuit));
    let kept = AnyDevice::composite(
        "Kept".to_string(),
        vec![("p".to_string(), DeviceContainer::Multiple(vec![Pin { id: 0 }, Pin { id: 7 }]))],
        vec![("inner".to_string(), DeviceContainer::Multiple(vec![not_gate.as_any(&circuit)]))],
    );
    assert!(kept.is_of(&circuit));
}

#[test]
fn test_connect_each_and_new_each() {
    let mut circuit = Circuit::new();
    let transistors = Transistor::new_each(&mut circuit, 3, false);
    assert_eq!(transistors.len(), 3);
    assert_eq!(circuit.num_transistors(), 3);
    assert_eq!(circuit.num_pins(), 9);
    for (index, transistor) in transistors.iter().enumerate() {
        assert_eq!(transistor.index, index);
        assert!(!transistor.get_activation(&circuit));
        assert_eq!(transistor.get_source(&circuit), Pin { id: 3 * index });
        assert_eq!(transistor.get_gate(&circuit), Pin { id: 3 * index + 1 });
        assert_eq!(transistor.get_drain(&circuit), Pin { id: 3 * index + 2 });
    }
    let pairs = vec![
        (Pin { id: 0 }, Pin { id: 3 }),
        (Pin { id: 6 }, Pin { id: 0 }),
        (Pin { id: 3 }, Pin { id: 6 }),
    ];
    Pin::connect_each(&mut circuit, &pairs);
    assert_eq!(
        Pin { id: 3 }.get_connected_pins(&circuit),
        vec![Pin { id: 6 }, Pin { id: 0 }, Pin { id: 3 }]
    );
    assert_eq!(Pin { id: 1 }.get_connected_pins(&circuit), vec![Pin { id: 1 }]);
}
