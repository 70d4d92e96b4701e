use digital_logic::drive_values;
use digital_logic::settle;
use digital_logic::AndGate;
use digital_logic::BufferGate;
use digital_logic::Circuit;
use digital_logic::Device;
use digital_logic::DriveValue;
use digital_logic::LogicValue;
use digital_logic::NandGate;
use digital_logic::NorGate;
use digital_logic::NotGate;
use digital_logic::OrGate;
use digital_logic::Pin;
use digital_logic::TestPin;
use digital_logic::TriStateBufferGate;
use digital_logic::XnorGate;
use digital_logic::XorGate;

#[test]
fn test_not_gate() {
    let get_expected = |a: &DriveValue| match LogicValue::from(*a) {
        LogicValue::Driven(false) => LogicValue::Driven(true),
        LogicValue::Driven(true) => LogicValue::Driven(false),
        _ => LogicValue::Error,
    };

    let mut circuit = Circuit::new();
    let not_gate = NotGate::new(&mut circuit);
    let test_pin = TestPin::new(&mut circuit, DriveValue::HighImpedance);
    Pin::connect(&mut circuit, test_pin.get_output(), not_gate.get_input());
    let device = not_gate.as_any(&circuit);

    for value in drive_values().iter() {
        test_pin.set_drive(&mut circuit, *value);
        settle(&mut circuit, &device);
        let actual = not_gate.get_output().read(&circuit);
        let expected = get_expected(value);
        assert_eq!(expected, actual);
    }
}

#[test]
fn test_buffer_gate() {
    let get_expected = |a: &DriveValue| match LogicValue::from(*a) {
        LogicValue::Driven(false) => LogicValue::Driven(false),
        LogicValue::Driven(true) => LogicValue::Driven(true),
        _ => LogicValue::Error,
    };

    let mut circuit = Circuit::new();
    let buffer_gate = BufferGate::new(&mut circuit);
    let test_pin = TestPin::new(&mut circuit, DriveValue::HighImpedance);
    Pin::connect(&mut circuit, test_pin.get_output(), buffer_gate.get_input());
    let device = buffer_gate.as_any(&circuit);

    for value in drive_values().iter() {
        test_pin.set_drive(&mut circuit, *value);
        settle(&mut circuit, &device);
        let actual = buffer_gate.get_output().read(&circuit);
        let expected = get_expected(value);
        assert_eq!(expected, actual);
    }
}

#[test]
fn test_nor_gate_2_input() {
    let get_expected =
        |a: &DriveValue, b: &DriveValue| match (LogicValue::from(*a), LogicValue::from(*b)) {
            (LogicValue::Driven(false), LogicValue::Driven(false)) => LogicValue::Driven(true),
            (LogicValue::Driven(false), LogicValue::Driven(true)) => LogicValue::Driven(false),
            (LogicValue::Driven(true), LogicValue::Driven(false)) => LogicValue::Driven(false),
            (LogicValue::Driven(true), LogicValue::Driven(true)) => LogicValue::Driven(false),
            _ => LogicValue::Error,
        };

    let mut circuit = Circuit::new();
    let nor_gate = NorGate::new(&mut circuit, 2);
    let test_pin_a = TestPin::new(&mut circuit, DriveValue::HighImpedance);
    let test_pin_b = TestPin::new(&mut circuit, DriveValue::HighImpedance);
    Pin::connect(&mut circuit, test_pin_a.get_output(), nor_gate.get_input()[0]);
    Pin::connect(&mut circuit, test_pin_b.get_output(), nor_gate.get_input()[1]);
    let device = nor_gate.as_any(&circuit);

    for value_a in drive_values().iter() {
        for value_b in drive_values().iter() {
            test_pin_a.set_drive(&mut circuit, *value_a);
            test_pin_b.set_drive(&mut circuit, *value_b);
            settle(&mut circuit, &device);
            let actual = nor_gate.get_output().read(&circuit);
            let expected = get_expected(value_a, value_b);
            assert_eq!(expected, actual);
        }
    }
}

#[test]
fn test_nor_gate_3_input() {
    let get_expected = |a: &DriveValue, b: &DriveValue, c: &DriveValue| match (
        LogicValue::from(*a),
        LogicValue::from(*b),
        LogicValue::from(*c),
    ) {
        (LogicValue::Driven(false), LogicValue::Driven(false), LogicValue::Driven(false)) => {
            LogicValue::Driven(true)
        }
        (LogicValue::Driven(false), LogicValue::Driven(false), LogicValue::Driven(true)) => {
            LogicValue::Driven(false)
        }
        (LogicValue::Driven(false), LogicValue::Driven(true), LogicValue::Driven(false)) => {
            LogicValue::Driven(false)
        }
        (LogicValue::Driven(false), LogicValue::Driven(true), LogicValue::Driven(true)) => {
            LogicValue::Driven(false)
        }
        (LogicValue::Driven(true), LogicValue::Driven(false), LogicValue::Driven(false)) => {
            LogicValue::Driven(false)
        }
        (LogicValue::Driven(true), LogicValue::Driven(false), LogicValue::Driven(true)) => {
            LogicValue::Driven(false)
        }
        (LogicValue::Driven(true), LogicValue::Driven(true), LogicValue::Driven(false)) => {
            LogicValue::Driven(false)
        }
        (LogicValue::Driven(true), LogicValue::Driven(true), LogicValue::Driven(true)) => {
            LogicValue::Driven(false)
        }
        _ => LogicValue::Error,
    };

    let mut circuit = Circuit::new();
    let nor_gate = NorGate::new(&mut circuit, 3);
    let test_pin_a = TestPin::new(&mut circuit, DriveValue::HighImpedance);
    let test_pin_b = TestPin::new(&mut circuit, DriveValue::HighImpedance);
    let test_pin_c = TestPin::new(&mut circuit, DriveValue::HighImpedance);
    Pin::connect(&mut circuit, test_pin_a.get_output(), nor_gate.get_input()[0]);
    Pin::connect(&mut circuit, test_pin_b.get_output(), nor_gate.get_input()[1]);
    Pin::connect(&mut circuit, test_pin_c.get_output(), nor_gate.get_input()[2]);
    let device = nor_gate.as_any(&circuit);

    for value_a in drive_values().iter() {
        for value_b in drive_values().iter() {
            for value_c in drive_values().iter() {
                test_pin_a.set_drive(&mut circuit, *value_a);
                test_pin_b.set_drive(&mut circuit, *value_b);
                test_pin_c.set_drive(&mut circuit, *value_c);
                settle(&mut circuit, &device);
                let actual = nor_gate.get_output().read(&circuit);
                let expected = get_expected(value_a, value_b, value_c);
                assert_eq!(expected, actual);
            }
        }
    }
}

#[test]
fn test_and_gate_2_input() {
    let get_expected =
        |a: &DriveValue, b: &DriveValue| match (LogicValue::from(*a), LogicValue::from(*b)) {
            (LogicValue::Driven(false), LogicValue::Driven(false)) => LogicValue::Driven(false),
            (LogicValue::Driven(false), LogicValue::Driven(true)) => LogicValue::Driven(false),
            (LogicValue::Driven(true), LogicValue::Driven(false)) => LogicValue::Driven(false),
            (LogicValue::Driven(true), LogicValue::Driven(true)) => LogicValue::Driven(true),
            _ => LogicValue::Error,
        };

    let mut circuit = Circuit::new();
    let and_gate = AndGate::new(&mut circuit, 2);
    let test_pin_a = TestPin::new(&mut circuit, DriveValue::HighImpedance);
    let test_pin_b = TestPin::new(&mut circuit, DriveValue::HighImpedance);
    Pin::connect(&mut circuit, test_pin_a.get_output(), and_gate.get_input()[0]);
    Pin::connect(&mut circuit, test_pin_b.get_output(), and_gate.get_input()[1]);
    let device = and_gate.as_any(&circuit);

    for value_a in drive_values().iter() {
        for value_b in drive_values().iter() {
            test_pin_a.set_drive(&mut circuit, *value_a);
            test_pin_b.set_drive(&mut circuit, *value_b);
            settle(&mut circuit, &device);
            let actual = and_gate.get_output().read(&circuit);
            let expected = get_expected(value_a, value_b);
            assert_eq!(expected, actual);
        }
    }
}

#[test]
fn test_and_gate_3_input() {
    let get_expected = |a: &DriveValue, b: &DriveValue, c: &DriveValue| match (
        LogicValue::from(*a),
        LogicValue::from(*b),
        LogicValue::from(*c),
    ) {
        (LogicValue::Driven(false), LogicValue::Driven(false), LogicValue::Driven(false)) => {
            LogicValue::Driven(false)
        }
        (LogicValue::Driven(false), LogicValue::Driven(false), LogicValue::Driven(true)) => {
            LogicValue::Driven(false)
        }
        (LogicValue::Driven(false), LogicValue::Driven(true), LogicValue::Driven(false)) => {
            LogicValue::Driven(false)
        }
        (LogicValue::Driven(false), LogicValue::Driven(true), LogicValue::Driven(true)) => {
            LogicValue::Driven(false)
        }
        (LogicValue::Driven(true), LogicValue::Driven(false), LogicValue::Driven(false)) => {
            LogicValue::Driven(false)
        }
        (LogicValue::Driven(true), LogicValue::Driven(false), LogicValue::Driven(true)) => {
            LogicValue::Driven(false)
        }
        (LogicValue::Driven(true), LogicValue::Driven(true), LogicValue::Driven(false)) => {
            LogicValue::Driven(false)
        }
        (LogicValue::Driven(true), LogicValue::Driven(true), LogicValue::Driven(true)) => {
            LogicValue::Driven(true)
        }
        _ => LogicValue::Error,
    };

    let mut circuit = Circuit::new();
    let and_gate = AndGate::new(&mut circuit, 3);
    let test_pin_a = TestPin::new(&mut circuit, DriveValue::HighImpedance);
    let test_pin_b = TestPin::new(&mut circuit, DriveValue::HighImpedance);
    let test_pin_c = TestPin::new(&mut circuit, DriveValue::HighImpedance);
    Pin::connect(&mut circuit, test_pin_a.get_output(), and_gate.get_input()[0]);
    Pin::connect(&mut circuit, test_pin_b.get_output(), and_gate.get_input()[1]);
    Pin::connect(&mut circuit, test_pin_c.get_output(), and_gate.get_input()[2]);
    let device = and_gate.as_any(&circuit);

    for value_a in drive_values().iter() {
        for value_b in drive_values().iter() {
            for value_c in drive_values().iter() {
                test_pin_a.set_drive(&mut circuit, *value_a);
                test_pin_b.set_drive(&mut circuit, *value_b);
                test_pin_c.set_drive(&mut circuit, *value_c);
                settle(&mut circuit, &device);
                let actual = and_gate.get_output().read(&circuit);
                let expected = get_expected(value_a, value_b, value_c);
                assert_eq!(expected, actual);
            }
        }
    }
}

#[test]
fn test_or_gate_2_input() {
    let get_expected =
        |a: &DriveValue, b: &DriveValue| match (LogicValue::from(*a), LogicValue::from(*b)) {
            (LogicValue::Driven(false), LogicValue::Driven(false)) => LogicValue::Driven(false),
            (LogicValue::Driven(false), LogicValue::Driven(true)) => LogicValue::Driven(true),
            (LogicValue::Driven(true), LogicValue::Driven(false)) => LogicValue::Driven(true),
            (LogicValue::Driven(true), LogicValue::Driven(true)) => LogicValue::Driven(true),
            _ => LogicValue::Error,
        };

    let mut circuit = Circuit::new();
    let or_gate = OrGate::new(&mut circuit, 2);
    let test_pin_a = TestPin::new(&mut circuit, DriveValue::HighImpedance);
    let test_pin_b = TestPin::new(&mut circuit, DriveValue::HighImpedance);
    Pin::connect(&mut circuit, test_pin_a.get_output(), or_gate.get_input()[0]);
    Pin::connect(&mut circuit, test_pin_b.get_output(), or_gate.get_input()[1]);
    let device = or_gate.as_any(&circuit);

    for value_a in drive_values().iter() {
        for value_b in drive_values().iter() {
            test_pin_a.set_drive(&mut circuit, *value_a);
            test_pin_b.set_drive(&mut circuit, *value_b);
            settle(&mut circuit, &device);
            let actual = or_gate.get_output().read(&circuit);
            let expected = get_expected(value_a, value_b);
            assert_eq!(expected, actual);
        }
    }
}

#[test]
fn test_or_gate_3_input() {
    let get_expected = |a: &DriveValue, b: &DriveValue, c: &DriveValue| match (
        LogicValue::from(*a),
        LogicValue::from(*b),
        LogicValue::from(*c),
    ) {
        (LogicValue::Driven(false), LogicValue::Driven(false), LogicValue::Driven(false)) => {
            LogicValue::Driven(false)
        }
        (LogicValue::Driven(false), LogicValue::Driven(false), LogicValue::Driven(true)) => {
            LogicValue::Driven(true)
        }
        (LogicValue::Driven(false), LogicValue::Driven(true), LogicValue::Driven(false)) => {
            LogicValue::Driven(true)
        }
        (LogicValue::Driven(false), LogicValue::Driven(true), LogicValue::Driven(true)) => {
            LogicValue::Driven(true)
        }
        (LogicValue::Driven(true), LogicValue::Driven(false), LogicValue::Driven(false)) => {
            LogicValue::Driven(true)
        }
        (LogicValue::Driven(true), LogicValue::Driven(false), LogicValue::Driven(true)) => {
            LogicValue::Driven(true)
        }
        (LogicValue::Driven(true), LogicValue::Driven(true), LogicValue::Driven(false)) => {
            LogicValue::Driven(true)
        }
        (LogicValue::Driven(true), LogicValue::Driven(true), LogicValue::Driven(true)) => {
            LogicValue::Driven(true)
        }
        _ => LogicValue::Error,
    };

    let mut circuit = Circuit::new();
    let or_gate = OrGate::new(&mut circuit, 3);
    let test_pin_a = TestPin::new(&mut circuit, DriveValue::HighImpedance);
    let test_pin_b = TestPin::new(&mut circuit, DriveValue::HighImpedance);
    let test_pin_c = TestPin::new(&mut circuit, DriveValue::HighImpedance);
    Pin::connect(&mut circuit, test_pin_a.get_output(), or_gate.get_input()[0]);
    Pin::connect(&mut circuit, test_pin_b.get_output(), or_gate.get_input()[1]);
    Pin::connect(&mut circuit, test_pin_c.get_output(), or_gate.get_input()[2]);
    let device = or_gate.as_any(&circuit);

    for value_a in drive_values().iter() {
        for value_b in drive_values().iter() {
            for value_c in drive_values().iter() {
                test_pin_a.set_drive(&mut circuit, *value_a);
                test_pin_b.set_drive(&mut circuit, *value_b);
                test_pin_c.set_drive(&mut circuit, *value_c);
                settle(&mut circuit, &device);
                let actual = or_gate.get_output().read(&circuit);
                let expected = get_expected(value_a, value_b, value_c);
                assert_eq!(expected, actual);
            }
        }
    }
}

#[test]
fn test_tri_state_buffer_gate() {
    let get_expected = |enable: &DriveValue, input: &DriveValue| match (
        LogicValue::from(*enable),
        LogicValue::from(*input),
    ) {
        (LogicValue::Driven(false), LogicValue::Driven(false)) => LogicValue::Driven(false),
        (LogicValue::Driven(false), LogicValue::Driven(true)) => LogicValue::Driven(true),
        (LogicValue::Driven(true), LogicValue::Driven(false)) => LogicValue::HighImpedance,
        (LogicValue::Driven(true), LogicValue::Driven(true)) => LogicValue::HighImpedance,
        _ => LogicValue::Error,
    };

    let mut circuit = Circuit::new();
    let buffer_gate = TriStateBufferGate::new(&mut circuit);
    let test_pin_enable = TestPin::new(&mut circuit, DriveValue::HighImpedance);
    let test_pin_input = TestPin::new(&mut circuit, DriveValue::HighImpedance);
    Pin::connect(&mut circuit, test_pin_enable.get_output(), buffer_gate.get_enable());
    Pin::connect(&mut circuit, test_pin_input.get_output(), buffer_gate.get_input());
    let device = buffer_gate.as_any(&circuit);

    for value_enable in drive_values().iter() {
        for value_input in drive_values().iter() {
            test_pin_enable.set_drive(&mut circuit, *value_enable);
            test_pin_input.set_drive(&mut circuit, *value_input);
            settle(&mut circuit, &device);
            let actual = buffer_gate.get_output().read(&circuit);
            let expected = get_expected(value_enable, value_input);
            assert_eq!(expected, actual);
        }
    }
}

#[test]
fn test_xnor_gate() {
    let get_expected =
        |a: &DriveValue, b: &DriveValue| match (LogicValue::from(*a), LogicValue::from(*b)) {
            (LogicValue::Driven(false), LogicValue::Driven(false)) => LogicValue::Driven(true),
            (LogicValue::Driven(false), LogicValue::Driven(true)) => LogicValue::Driven(false),
            (LogicValue::Driven(true), LogicValue::Driven(false)) => LogicValue::Driven(false),
            (LogicValue::Driven(true), LogicValue::Driven(true)) => LogicValue::Driven(true),
            _ => LogicValue::Error,
        };

    let mut circuit = Circuit::new();
    let xnor_gate = XnorGate::new(&mut circuit);
    let test_pin_a = TestPin::new(&mut circuit, DriveValue::HighImpedance);
    let test_pin_b = TestPin::new(&mut circuit, DriveValue::HighImpedance);
    Pin::connect(&mut circuit, test_pin_a.get_output(), xnor_gate.get_a_input());
    Pin::connect(&mut circuit, test_pin_b.get_output(), xnor_gate.get_b_input());
    let device = xnor_gate.as_any(&circuit);

    for value_a in drive_values().iter() {
        for value_b in drive_values().iter() {
            test_pin_a.set_drive(&mut circuit, *value_a);
            test_pin_b.set_drive(&mut circuit, *value_b);
            settle(&mut circuit, &device);
            let actual = xnor_gate.get_output().read(&circuit);
            let expected = get_expected(value_a, value_b);
            assert_eq!(expected, actual);
        }
    }
}

#[test]
fn test_xor_gate() {
    let get_expected =
        |a: &DriveValue, b: &DriveValue| match (LogicValue::from(*a), LogicValue::from(*b)) {
            (LogicValue::Driven(false), LogicValue::Driven(false)) => LogicValue::Driven(false),
            (LogicValue::Driven(false), LogicValue::Driven(true)) => LogicValue::Driven(true),
            (LogicValue::Driven(true), LogicValue::Driven(false)) => LogicValue::Driven(true),
            (LogicValue::Driven(true), LogicValue::Driven(true)) => LogicValue::Driven(false),
            _ => LogicValue::Error,
        };

    let mut circuit = Circuit::new();
    let xor_gate = XorGate::new(&mut circuit);
    let test_pin_a = TestPin::new(&mut circuit, DriveValue::HighImpedance);
    let test_pin_b = TestPin::new(&mut circuit, DriveValue::HighImpedance);
    Pin::connect(&mut circuit, test_pin_a.get_output(), xor_gate.get_a_input());
    Pin::connect(&mut circuit, test_pin_b.get_output(), xor_gate.get_b_input());
    let device = xor_gate.as_any(&circuit);

    for value_a in drive_values().iter() {
        for value_b in drive_values().iter() {
            test_pin_a.set_drive(&mut circuit, *value_a);
            test_pin_b.set_drive(&mut circuit, *value_b);
            settle(&mut circuit, &device);
            let actual = xor_gate.get_output().read(&circuit);
            let expected = get_expected(value_a, value_b);
            assert_eq!(expected, actual);
        }
    }
}

#[test]
fn test_nand_gate_2_input() {
    let get_expected =
        |a: &DriveValue, b: &DriveValue| match (LogicValue::from(*a), LogicValue::from(*b)) {
            (LogicValue::Driven(false), LogicValue::Driven(false)) => LogicValue::Driven(true),
            (LogicValue::Driven(false), LogicValue::Driven(true)) => LogicValue::Driven(true),
            (LogicValue::Driven(true), LogicValue::Driven(false)) => LogicValue::Driven(true),
            (LogicValue::Driven(true), LogicValue::Driven(true)) => LogicValue::Driven(false),
            _ => LogicValue::Error,
        };

    let mut circuit = Circuit::new();
    let nand_gate = NandGate::new(&mut circuit, 2);
    let test_pin_a = TestPin::new(&mut circuit, DriveValue::HighImpedance);
    let test_pin_b = TestPin::new(&mut circuit, DriveValue::HighImpedance);
    Pin::connect(&mut circuit, test_pin_a.get_output(), nand_gate.get_input()[0]);
    Pin::connect(&mut circuit, test_pin_b.get_output(), nand_gate.get_input()[1]);
    let device = nand_gate.as_any(&circuit);

    for value_a in drive_values().iter() {
        for value_b in drive_values().iter() {
            test_pin_a.set_drive(&mut circuit, *value_a);
            test_pin_b.set_drive(&mut circuit, *value_b);
            settle(&mut circuit, &device);
            let actual = nand_gate.get_output().read(&circuit);
            let expected = get_expected(value_a, value_b);
            assert_eq!(expected, actual);
        }
    }
}

#[test]
fn test_nand_gate_3_input() {
    let get_expected = |a: &DriveValue, b: &DriveValue, c: &DriveValue| match (
        LogicValue::from(*a),
        LogicValue::from(*b),
        LogicValue::from(*c),
    ) {
        (LogicValue::Driven(true), LogicValue::Driven(true), LogicValue::Driven(true)) => {
            LogicValue::Driven(false)
        }
        (LogicValue::Driven(_), LogicValue::Driven(_), LogicValue::Driven(_)) => {
            LogicValue::Driven(true)
        }
        _ => LogicValue::Error,
    };

    let mut circuit = Circuit::new();
    let nand_gate = NandGate::new(&mut circuit, 3);
    let test_pin_a = TestPin::new(&mut circuit, DriveValue::HighImpedance);
    let test_pin_b = TestPin::new(&mut circuit, DriveValue::HighImpedance);
    let test_pin_c = TestPin::new(&mut circuit, DriveValue::HighImpedance);
    Pin::connect(&mut circuit, test_pin_a.get_output(), nand_gate.get_input()[0]);
    Pin::connect(&mut circuit, test_pin_b.get_output(), nand_gate.get_input()[1]);
    Pin::connect(&mut circuit, test_pin_c.get_output(), nand_gate.get_input()[2]);
    let device = nand_gate.as_any(&circuit);

    for value_a in drive_values().iter() {
        for value_b in drive_values().iter() {
            for value_c in drive_values().iter() {
                test_pin_a.set_drive(&mut circuit, *value_a);
                test_pin_b.set_drive(&mut circuit, *value_b);
                test_pin_c.set_drive(&mut circuit, *value_c);
                settle(&mut circuit, &device);
                let actual = nand_gate.get_output().read(&circuit);
                let expected = get_expected(value_a, value_b, value_c);
                assert_eq!(expected, actual);
            }
        }
    }
}
