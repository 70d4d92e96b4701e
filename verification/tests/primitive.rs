use digital_logic::drive_values;
use digital_logic::Circuit;
use digital_logic::Constant;
use digital_logic::DriveValue;
use digital_logic::LogicValue;
use digital_logic::TestPin;
use digital_logic::Transistor;

#[test]
fn test_strong_true() {
    let mut circuit = Circuit::new();
    let strong_true = Constant::new_strong(&mut circuit, true);
    assert_eq!(
        strong_true.get_output().get_drive(&circuit),
        DriveValue::Strong(true)
    );
    assert_eq!(
        strong_true.get_output().read(&circuit),
        LogicValue::Driven(true)
    );
}

#[test]
fn test_strong_false() {
    let mut circuit = Circuit::new();
    let strong_false = Constant::new_strong(&mut circuit, false);
    assert_eq!(
        strong_false.get_output().get_drive(&circuit),
        DriveValue::Strong(false)
    );
    assert_eq!(
        strong_false.get_output().read(&circuit),
        LogicValue::Driven(false)
    );
}

#[test]
fn test_weak_true() {
    let mut circuit = Circuit::new();
    let weak_true = Constant::new_weak(&mut circuit, true);
    assert_eq!(
        weak_true.get_output().get_drive(&circuit),
        DriveValue::Weak(true)
    );
    assert_eq!(
        weak_true.get_output().read(&circuit),
        LogicValue::Driven(true)
    );
}

#[test]
fn test_weak_false() {
    let mut circuit = Circuit::new();
    let weak_false = Constant::new_weak(&mut circuit, false);
    assert_eq!(
        weak_false.get_output().get_drive(&circuit),
        DriveValue::Weak(false)
    );
    assert_eq!(
        weak_false.get_output().read(&circuit),
        LogicValue::Driven(false)
    );
}

#[test]
fn test_pin_test() {
    let mut circuit = Circuit::new();
    let test_pin = TestPin::new(&mut circuit, DriveValue::HighImpedance);
    assert_eq!(
        test_pin.get_output().get_drive(&circuit),
        DriveValue::HighImpedance
    );
    assert_eq!(
        test_pin.get_output().read(&circuit),
        LogicValue::HighImpedance
    );

    test_pin.set_drive(&mut circuit, DriveValue::Strong(true));
    assert_eq!(
        test_pin.get_output().get_drive(&circuit),
        DriveValue::Strong(true)
    );
    assert_eq!(
        test_pin.get_output().read(&circuit),
        LogicValue::Driven(true)
    );
}

fn tick_transistor(
    circuit: &mut Circuit,
    transistor: &Transistor,
    gate: &DriveValue,
    source: &DriveValue,
) -> DriveValue {
    transistor.get_gate(circuit).set_drive(circuit, *gate);
    transistor.get_source(circuit).set_drive(circuit, *source);

    // Perform the ticks necessary to compute the output of the transistor.
    transistor.get_gate(circuit).tick(circuit);
    transistor.get_source(circuit).tick(circuit);
    transistor.tick(circuit);
    transistor.get_drain(circuit).tick(circuit);

    transistor.get_drain(circuit).get_drive(circuit)
}

// What a transistor that conducts on `activation` shows on its drain, on the first tick with
// given drives and on every later one: errors of an undriven control pin are delayed by one
// tick.
fn expected_drain(activation: bool, gate: &DriveValue, source: &DriveValue, first: bool) -> DriveValue {
    match (gate, source) {
        (DriveValue::Strong(g), DriveValue::Strong(s)) | (DriveValue::Strong(g), DriveValue::Weak(s))
        | (DriveValue::Weak(g), DriveValue::Strong(s)) | (DriveValue::Weak(g), DriveValue::Weak(s)) => {
            if *g == activation {
                DriveValue::Strong(*s)
            } else {
                DriveValue::HighImpedance
            }
        }
        (DriveValue::Strong(g), DriveValue::HighImpedance)
        | (DriveValue::Weak(g), DriveValue::HighImpedance) => {
            let _ = g;
            DriveValue::HighImpedance
        }
        (DriveValue::Strong(g), DriveValue::Error) | (DriveValue::Weak(g), DriveValue::Error) => {
            if *g == activation {
                DriveValue::Error
            } else {
                DriveValue::HighImpedance
            }
        }
        (DriveValue::HighImpedance, _) | (DriveValue::Error, _) => {
            if first {
                DriveValue::HighImpedance
            } else {
                DriveValue::Error
            }
        }
    }
}

#[test]
fn test_nmos() {
    // We need two truth tables since error values are delayed by one tick.
    let get_expected_1 = |gate: &DriveValue, source: &DriveValue| match (gate, source) {
        (DriveValue::Strong(true), DriveValue::Strong(true)) => DriveValue::Strong(true),
        (DriveValue::Strong(true), DriveValue::Strong(false)) => DriveValue::Strong(false),
        (DriveValue::Strong(true), DriveValue::Weak(true)) => DriveValue::Strong(true),
        (DriveValue::Strong(true), DriveValue::Weak(false)) => DriveValue::Strong(false),
        (DriveValue::Strong(true), DriveValue::HighImpedance) => DriveValue::HighImpedance,
        (DriveValue::Strong(true), DriveValue::Error) => DriveValue::Error,
        (DriveValue::Strong(false), DriveValue::Strong(true)) => DriveValue::HighImpedance,
        (DriveValue::Strong(false), DriveValue::Strong(false)) => DriveValue::HighImpedance,
        (DriveValue::Strong(false), DriveValue::Weak(true)) => DriveValue::HighImpedance,
        (DriveValue::Strong(false), DriveValue::Weak(false)) => DriveValue::HighImpedance,
        (DriveValue::Strong(false), DriveValue::HighImpedance) => DriveValue::HighImpedance,
        (DriveValue::Strong(false), DriveValue::Error) => DriveValue::HighImpedance,
        (DriveValue::Weak(true), DriveValue::Strong(true)) => DriveValue::Strong(true),
        (DriveValue::Weak(true), DriveValue::Strong(false)) => DriveValue::Strong(false),
        (DriveValue::Weak(true), DriveValue::Weak(true)) => DriveValue::Strong(true),
        (DriveValue::Weak(true), DriveValue::Weak(false)) => DriveValue::Strong(false),
        (DriveValue::Weak(true), DriveValue::HighImpedance) => DriveValue::HighImpedance,
        (DriveValue::Weak(true), DriveValue::Error) => DriveValue::Error,
        (DriveValue::Weak(false), DriveValue::Strong(true)) => DriveValue::HighImpedance,
        (DriveValue::Weak(false), DriveValue::Strong(false)) => DriveValue::HighImpedance,
        (DriveValue::Weak(false), DriveValue::Weak(true)) => DriveValue::HighImpedance,
        (DriveValue::Weak(false), DriveValue::Weak(false)) => DriveValue::HighImpedance,
        (DriveValue::Weak(false), DriveValue::HighImpedance) => DriveValue::HighImpedance,
        (DriveValue::Weak(false), DriveValue::Error) => DriveValue::HighImpedance,
        (DriveValue::HighImpedance, DriveValue::Strong(true)) => DriveValue::HighImpedance,
        (DriveValue::HighImpedance, DriveValue::Strong(false)) => DriveValue::HighImpedance,
        (DriveValue::HighImpedance, DriveValue::Weak(true)) => DriveValue::HighImpedance,
        (DriveValue::HighImpedance, DriveValue::Weak(false)) => DriveValue::HighImpedance,
        (DriveValue::HighImpedance, DriveValue::HighImpedance) => DriveValue::HighImpedance,
        (DriveValue::HighImpedance, DriveValue::Error) => DriveValue::HighImpedance,
        (DriveValue::Error, DriveValue::Strong(true)) => DriveValue::HighImpedance,
        (DriveValue::Error, DriveValue::Strong(false)) => DriveValue::HighImpedance,
        (DriveValue::Error, DriveValue::Weak(true)) => DriveValue::HighImpedance,
        (DriveValue::Error, DriveValue::Weak(false)) => DriveValue::HighImpedance,
        (DriveValue::Error, DriveValue::HighImpedance) => DriveValue::HighImpedance,
        (DriveValue::Error, DriveValue::Error) => DriveValue::HighImpedance,
    };

    let get_expected_2 = |gate: &DriveValue, source: &DriveValue| match (gate, source) {
        (DriveValue::Strong(true), DriveValue::Strong(true)) => DriveValue::Strong(true),
        (DriveValue::Strong(true), DriveValue::Strong(false)) => DriveValue::Strong(false),
        (DriveValue::Strong(true), DriveValue::Weak(true)) => DriveValue::Strong(true),
        (DriveValue::Strong(true), DriveValue::Weak(false)) => DriveValue::Strong(false),
        (DriveValue::Strong(true), DriveValue::HighImpedance) => DriveValue::HighImpedance,
        (DriveValue::Strong(true), DriveValue::Error) => DriveValue::Error,
        (DriveValue::Strong(false), DriveValue::Strong(true)) => DriveValue::HighImpedance,
        (DriveValue::Strong(false), DriveValue::Strong(false)) => DriveValue::HighImpedance,
        (DriveValue::Strong(false), DriveValue::Weak(true)) => DriveValue::HighImpedance,
        (DriveValue::Strong(false), DriveValue::Weak(false)) => DriveValue::HighImpedance,
        (DriveValue::Strong(false), DriveValue::HighImpedance) => DriveValue::HighImpedance,
        (DriveValue::Strong(false), DriveValue::Error) => DriveValue::HighImpedance,
        (DriveValue::Weak(true), DriveValue::Strong(true)) => DriveValue::Strong(true),
        (DriveValue::Weak(true), DriveValue::Strong(false)) => DriveValue::Strong(false),
        (DriveValue::Weak(true), DriveValue::Weak(true)) => DriveValue::Strong(true),
        (DriveValue::Weak(true), DriveValue::Weak(false)) => DriveValue::Strong(false),
        (DriveValue::Weak(true), DriveValue::HighImpedance) => DriveValue::HighImpedance,
        (DriveValue::Weak(true), DriveValue::Error) => DriveValue::Error,
        (DriveValue::Weak(false), DriveValue::Strong(true)) => DriveValue::HighImpedance,
        (DriveValue::Weak(false), DriveValue::Strong(false)) => DriveValue::HighImpedance,
        (DriveValue::Weak(false), DriveValue::Weak(true)) => DriveValue::HighImpedance,
        (DriveValue::Weak(false), DriveValue::Weak(false)) => DriveValue::HighImpedance,
        (DriveValue::Weak(false), DriveValue::HighImpedance) => DriveValue::HighImpedance,
        (DriveValue::Weak(false), DriveValue::Error) => DriveValue::HighImpedance,
        (DriveValue::HighImpedance, DriveValue::Strong(true)) => DriveValue::Error,
        (DriveValue::HighImpedance, DriveValue::Strong(false)) => DriveValue::Error,
        (DriveValue::HighImpedance, DriveValue::Weak(true)) => DriveValue::Error,
        (DriveValue::HighImpedance, DriveValue::Weak(false)) => DriveValue::Error,
        (DriveValue::HighImpedance, DriveValue::HighImpedance) => DriveValue::Error,
        (DriveValue::HighImpedance, DriveValue::Error) => DriveValue::Error,
        (DriveValue::Error, DriveValue::Strong(true)) => DriveValue::Error,
        (DriveValue::Error, DriveValue::Strong(false)) => DriveValue::Error,
        (DriveValue::Error, DriveValue::Weak(true)) => DriveValue::Error,
        (DriveValue::Error, DriveValue::Weak(false)) => DriveValue::Error,
        (DriveValue::Error, DriveValue::HighImpedance) => DriveValue::Error,
        (DriveValue::Error, DriveValue::Error) => DriveValue::Error,
    };

    for gate in drive_values().iter() {
        for source in drive_values().iter() {
            let mut circuit = Circuit::new();
            let nmos = Transistor::new_nmos(&mut circuit);

            let actual_1 = tick_transistor(&mut circuit, &nmos, gate, source);
            let expected_1 = get_expected_1(gate, source);
            assert_eq!(actual_1, expected_1);
            assert_eq!(actual_1, expected_drain(true, gate, source, true));

            let actual_2 = tick_transistor(&mut circuit, &nmos, gate, source);
            let expected_2 = get_expected_2(gate, source);
            assert_eq!(actual_2, expected_2);
            assert_eq!(actual_2, expected_drain(true, gate, source, false));

            assert!(nmos.get_activation(&circuit));
        }
    }
}

#[test]
fn test_pmos() {
    // We need two truth tables since error values are delayed by one tick.
    let get_expected_1 = |gate: &DriveValue, source: &DriveValue| match (gate, source) {
        (DriveValue::Strong(true), DriveValue::Strong(true)) => DriveValue::HighImpedance,
        (DriveValue::Strong(true), DriveValue::Strong(false)) => DriveValue::HighImpedance,
        (DriveValue::Strong(true), DriveValue::Weak(true)) => DriveValue::HighImpedance,
        (DriveValue::Strong(true), DriveValue::Weak(false)) => DriveValue::HighImpedance,
        (DriveValue::Strong(true), DriveValue::HighImpedance) => DriveValue::HighImpedance,
        (DriveValue::Strong(true), DriveValue::Error) => DriveValue::HighImpedance,
        (DriveValue::Strong(false), DriveValue::Strong(true)) => DriveValue::Strong(true),
        (DriveValue::Strong(false), DriveValue::Strong(false)) => DriveValue::Strong(false),
        (DriveValue::Strong(false), DriveValue::Weak(true)) => DriveValue::Strong(true),
        (DriveValue::Strong(false), DriveValue::Weak(false)) => DriveValue::Strong(false),
        (DriveValue::Strong(false), DriveValue::HighImpedance) => DriveValue::HighImpedance,
        (DriveValue::Strong(false), DriveValue::Error) => DriveValue::Error,
        (DriveValue::Weak(true), DriveValue::Strong(true)) => DriveValue::HighImpedance,
        (DriveValue::Weak(true), DriveValue::Strong(false)) => DriveValue::HighImpedance,
        (DriveValue::Weak(true), DriveValue::Weak(true)) => DriveValue::HighImpedance,
        (DriveValue::Weak(true), DriveValue::Weak(false)) => DriveValue::HighImpedance,
        (DriveValue::Weak(true), DriveValue::HighImpedance) => DriveValue::HighImpedance,
        (DriveValue::Weak(true), DriveValue::Error) => DriveValue::HighImpedance,
        (DriveValue::Weak(false), DriveValue::Strong(true)) => DriveValue::Strong(true),
        (DriveValue::Weak(false), DriveValue::Strong(false)) => DriveValue::Strong(false),
        (DriveValue::Weak(false), DriveValue::Weak(true)) => DriveValue::Strong(true),
        (DriveValue::Weak(false), DriveValue::Weak(false)) => DriveValue::Strong(false),
        (DriveValue::Weak(false), DriveValue::HighImpedance) => DriveValue::HighImpedance,
        (DriveValue::Weak(false), DriveValue::Error) => DriveValue::Error,
        (DriveValue::HighImpedance, DriveValue::Strong(true)) => DriveValue::HighImpedance,
        (DriveValue::HighImpedance, DriveValue::Strong(false)) => DriveValue::HighImpedance,
        (DriveValue::HighImpedance, DriveValue::Weak(true)) => DriveValue::HighImpedance,
        (DriveValue::HighImpedance, DriveValue::Weak(false)) => DriveValue::HighImpedance,
        (DriveValue::HighImpedance, DriveValue::HighImpedance) => DriveValue::HighImpedance,
        (DriveValue::HighImpedance, DriveValue::Error) => DriveValue::HighImpedance,
        (DriveValue::Error, DriveValue::Strong(true)) => DriveValue::HighImpedance,
        (DriveValue::Error, DriveValue::Strong(false)) => DriveValue::HighImpedance,
        (DriveValue::Error, DriveValue::Weak(true)) => DriveValue::HighImpedance,
        (DriveValue::Error, DriveValue::Weak(false)) => DriveValue::HighImpedance,
        (DriveValue::Error, DriveValue::HighImpedance) => DriveValue::HighImpedance,
        (DriveValue::Error, DriveValue::Error) => DriveValue::HighImpedance,
    };

    let get_expected_2 = |gate: &DriveValue, source: &DriveValue| match (gate, source) {
        (DriveValue::Strong(true), DriveValue::Strong(true)) => DriveValue::HighImpedance,
        (DriveValue::Strong(true), DriveValue::Strong(false)) => DriveValue::HighImpedance,
        (DriveValue::Strong(true), DriveValue::Weak(true)) => DriveValue::HighImpedance,
        (DriveValue::Strong(true), DriveValue::Weak(false)) => DriveValue::HighImpedance,
        (DriveValue::Strong(true), DriveValue::HighImpedance) => DriveValue::HighImpedance,
        (DriveValue::Strong(true), DriveValue::Error) => DriveValue::HighImpedance,
        (DriveValue::Strong(false), DriveValue::Strong(true)) => DriveValue::Strong(true),
        (DriveValue::Strong(false), DriveValue::Strong(false)) => DriveValue::Strong(false),
        (DriveValue::Strong(false), DriveValue::Weak(true)) => DriveValue::Strong(true),
        (DriveValue::Strong(false), DriveValue::Weak(false)) => DriveValue::Strong(false),
        (DriveValue::Strong(false), DriveValue::HighImpedance) => DriveValue::HighImpedance,
        (DriveValue::Strong(false), DriveValue::Error) => DriveValue::Error,
        (DriveValue::Weak(true), DriveValue::Strong(true)) => DriveValue::HighImpedance,
        (DriveValue::Weak(true), DriveValue::Strong(false)) => DriveValue::HighImpedance,
        (DriveValue::Weak(true), DriveValue::Weak(true)) => DriveValue::HighImpedance,
        (DriveValue::Weak(true), DriveValue::Weak(false)) => DriveValue::HighImpedance,
        (DriveValue::Weak(true), DriveValue::HighImpedance) => DriveValue::HighImpedance,
        (DriveValue::Weak(true), DriveValue::Error) => DriveValue::HighImpedance,
        (DriveValue::Weak(false), DriveValue::Strong(true)) => DriveValue::Strong(true),
        (DriveValue::Weak(false), DriveValue::Strong(false)) => DriveValue::Strong(false),
        (DriveValue::Weak(false), DriveValue::Weak(true)) => DriveValue::Strong(true),
        (DriveValue::Weak(false), DriveValue::Weak(false)) => DriveValue::Strong(false),
        (DriveValue::Weak(false), DriveValue::HighImpedance) => DriveValue::HighImpedance,
        (DriveValue::Weak(false), DriveValue::Error) => DriveValue::Error,
        (DriveValue::HighImpedance, DriveValue::Strong(true)) => DriveValue::Error,
        (DriveValue::HighImpedance, DriveValue::Strong(false)) => DriveValue::Error,
        (DriveValue::HighImpedance, DriveValue::Weak(true)) => DriveValue::Error,
        (DriveValue::HighImpedance, DriveValue::Weak(false)) => DriveValue::Error,
        (DriveValue::HighImpedance, DriveValue::HighImpedance) => DriveValue::Error,
        (DriveValue::HighImpedance, DriveValue::Error) => DriveValue::Error,
        (DriveValue::Error, DriveValue::Strong(true)) => DriveValue::Error,
        (DriveValue::Error, DriveValue::Strong(false)) => DriveValue::Error,
        (DriveValue::Error, DriveValue::Weak(true)) => DriveValue::Error,
        (DriveValue::Error, DriveValue::Weak(false)) => DriveValue::Error,
        (DriveValue::Error, DriveValue::HighImpedance) => DriveValue::Error,
        (DriveValue::Error, DriveValue::Error) => DriveValue::Error,
    };

    for gate in drive_values().iter() {
        for source in drive_values().iter() {
            let mut circuit = Circuit::new();
            let pmos = Transistor::new_pmos(&mut circuit);

            let actual_1 = tick_transistor(&mut circuit, &pmos, gate, source);
            let expected_1 = get_expected_1(gate, source);
            assert_eq!(actual_1, expected_1);
            assert_eq!(actual_1, expected_drain(false, gate, source, true));

            let actual_2 = tick_transistor(&mut circuit, &pmos, gate, source);
            let expected_2 = get_expected_2(gate, source);
            assert_eq!(actual_2, expected_2);
            assert_eq!(actual_2, expected_drain(false, gate, source, false));

            assert!(!pmos.get_activation(&circuit));
        }
    }
}

#[test]
fn test_drive_values_lists_all_six() {
    assert_eq!(
        drive_values(),
        vec![
            DriveValue::Strong(true),
            DriveValue::Strong(false),
            DriveValue::Weak(true),
            DriveValue::Weak(false),
            DriveValue::HighImpedance,
            DriveValue::Error,
        ]
    );
}

#[test]
fn test_transistor_tick_reports_hysteresis_once() {
    let mut circuit = Circuit::new();
    let nmos = Transistor::new_nmos(&mut circuit);
    // The control pin is undriven: the first tick only arms the flag.
    assert!(nmos.tick(&mut circuit));
    assert!(!nmos.get_drain(&circuit).tick(&mut circuit));
    assert_eq!(nmos.get_drain(&circuit).get_drive(&circuit), DriveValue::HighImpedance);
    // The second tick decides Error, which shows after the drain is ticked.
    assert!(nmos.tick(&mut circuit));
    assert!(nmos.get_drain(&circuit).tick(&mut circuit));
    assert_eq!(nmos.get_drain(&circuit).get_drive(&circuit), DriveValue::Error);
    // From now on nothing changes.
    assert!(!nmos.tick(&mut circuit));
    assert!(!nmos.get_drain(&circuit).tick(&mut circuit));
}
