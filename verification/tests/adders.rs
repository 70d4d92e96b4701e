use digital_logic::drive_values;
use digital_logic::settle;
use digital_logic::tick;
use digital_logic::Circuit;
use digital_logic::Device;
use digital_logic::DriveValue;
use digital_logic::FullAdder;
use digital_logic::HalfAdder;
use digital_logic::LogicValue;
use digital_logic::LogicValue as LV;
use digital_logic::Pin;
use digital_logic::RippleCarryAdder;
use digital_logic::TestPin;

#[test]
fn test_half_adder() {
    let get_expected =
        |a: &DriveValue, b: &DriveValue| match (LogicValue::from(*a), LogicValue::from(*b)) {
            (LogicValue::Driven(false), LogicValue::Driven(false)) => {
                (LogicValue::Driven(false), LogicValue::Driven(false))
            }
            (LogicValue::Driven(false), LogicValue::Driven(true)) => {
                (LogicValue::Driven(true), LogicValue::Driven(false))
            }
            (LogicValue::Driven(true), LogicValue::Driven(false)) => {
                (LogicValue::Driven(true), LogicValue::Driven(false))
            }
            (LogicValue::Driven(true), LogicValue::Driven(true)) => {
                (LogicValue::Driven(false), LogicValue::Driven(true))
            }
            _ => (LogicValue::Error, LogicValue::Error),
        };

    let mut circuit = Circuit::new();
    let half_adder = HalfAdder::new(&mut circuit);
    let test_pin_a = TestPin::new(&mut circuit, DriveValue::HighImpedance);
    let test_pin_b = TestPin::new(&mut circuit, DriveValue::HighImpedance);
    Pin::connect(&mut circuit, test_pin_a.get_output(), half_adder.get_a());
    Pin::connect(&mut circuit, test_pin_b.get_output(), half_adder.get_b());
    let device = half_adder.as_any(&circuit);

    for value_a in drive_values().iter() {
        for value_b in drive_values().iter() {
            test_pin_a.set_drive(&mut circuit, *value_a);
            test_pin_b.set_drive(&mut circuit, *value_b);
            settle(&mut circuit, &device);
            let actual_sum = half_adder.get_sum().read(&circuit);
            let actual_carry = half_adder.get_carry().read(&circuit);
            let (expected_sum, expected_carry) = get_expected(value_a, value_b);
            assert_eq!(expected_sum, actual_sum);
            assert_eq!(expected_carry, actual_carry);
        }
    }
}

#[test]
fn test_full_adder() {
    let get_expected = |a: &DriveValue, b: &DriveValue, carry_in: &DriveValue| match (
        LogicValue::from(*a),
        LogicValue::from(*b),
        LogicValue::from(*carry_in),
    ) {
        (LogicValue::Driven(false), LogicValue::Driven(false), LogicValue::Driven(false)) => {
            (LogicValue::Driven(false), LogicValue::Driven(false))
        }
        (LogicValue::Driven(false), LogicValue::Driven(false), LogicValue::Driven(true)) => {
            (LogicValue::Driven(true), LogicValue::Driven(false))
        }
        (LogicValue::Driven(false), LogicValue::Driven(true), LogicValue::Driven(false)) => {
            (LogicValue::Driven(true), LogicValue::Driven(false))
        }
        (LogicValue::Driven(false), LogicValue::Driven(true), LogicValue::Driven(true)) => {
            (LogicValue::Driven(false), LogicValue::Driven(true))
        }
        (LogicValue::Driven(true), LogicValue::Driven(false), LogicValue::Driven(false)) => {
            (LogicValue::Driven(true), LogicValue::Driven(false))
        }
        (LogicValue::Driven(true), LogicValue::Driven(false), LogicValue::Driven(true)) => {
            (LogicValue::Driven(false), LogicValue::Driven(true))
        }
        (LogicValue::Driven(true), LogicValue::Driven(true), LogicValue::Driven(false)) => {
            (LogicValue::Driven(false), LogicValue::Driven(true))
        }
        (LogicValue::Driven(true), LogicValue::Driven(true), LogicValue::Driven(true)) => {
            (LogicValue::Driven(true), LogicValue::Driven(true))
        }
        _ => (LogicValue::Error, LogicValue::Error),
    };

    let mut circuit = Circuit::new();
    let full_adder = FullAdder::new(&mut circuit);
    let test_pin_a = TestPin::new(&mut circuit, DriveValue::HighImpedance);
    let test_pin_b = TestPin::new(&mut circuit, DriveValue::HighImpedance);
    let test_pin_carry_in = TestPin::new(&mut circuit, DriveValue::HighImpedance);
    Pin::connect(&mut circuit, test_pin_a.get_output(), full_adder.get_a());
    Pin::connect(&mut circuit, test_pin_b.get_output(), full_adder.get_b());
    Pin::connect(&mut circuit, test_pin_carry_in.get_output(), full_adder.get_carry_in());
    let device = full_adder.as_any(&circuit);

    for value_a in drive_values().iter() {
        for value_b in drive_values().iter() {
            for value_carry_in in drive_values().iter() {
                test_pin_a.set_drive(&mut circuit, *value_a);
                test_pin_b.set_drive(&mut circuit, *value_b);
                test_pin_carry_in.set_drive(&mut circuit, *value_carry_in);
                settle(&mut circuit, &device);
                let actual_sum = full_adder.get_sum().read(&circuit);
                let actual_carry = full_adder.get_carry().read(&circuit);
                let (expected_sum, expected_carry) =
                    get_expected(value_a, value_b, value_carry_in);
                assert_eq!(expected_sum, actual_sum);
                assert_eq!(expected_carry, actual_carry);
            }
        }
    }
}

// This is a low-level test that tests error and high impedance conditions as well. Because of
// this, the truth table is quite large.
#[test]
fn test_ripple_carry_adder_2_bit() {
    let expected = |a0: &DriveValue, a1: &DriveValue, b0: &DriveValue, b1: &DriveValue| match (
        LV::from(*a1),
        LV::from(*a0),
        LV::from(*b1),
        LV::from(*b0),
    ) {
        /* Valid logic cases. */

        /* 0b00 + 0b00 = 0b00 */
        (LV::Driven(false), LV::Driven(false), LV::Driven(false), LV::Driven(false)) => {
            (LV::Driven(false), LV::Driven(false), LV::Driven(false))
        }

        /* 0b00 + 0b01 = 0b01 */
        (LV::Driven(false), LV::Driven(false), LV::Driven(false), LV::Driven(true)) => {
            (LV::Driven(false), LV::Driven(true), LV::Driven(false))
        }

        /* 0b01 + 0b00 = 0b01 */
        (LV::Driven(false), LV::Driven(true), LV::Driven(false), LV::Driven(false)) => {
            (LV::Driven(false), LV::Driven(true), LV::Driven(false))
        }

        /* 0b01 + 0b01 = 0b10 */
        (LV::Driven(false), LV::Driven(true), LV::Driven(false), LV::Driven(true)) => {
            (LV::Driven(true), LV::Driven(false), LV::Driven(false))
        }

        /* 0b00 + 0b10 = 0b10 */
        (LV::Driven(false), LV::Driven(false), LV::Driven(true), LV::Driven(false)) => {
            (LV::Driven(true), LV::Driven(false), LV::Driven(false))
        }

        /* 0b00 + 0b11 = 0b11 */
        (LV::Driven(false), LV::Driven(false), LV::Driven(true), LV::Driven(true)) => {
            (LV::Driven(true), LV::Driven(true), LV::Driven(false))
        }

        /* 0b01 + 0b10 = 0b11 */
        (LV::Driven(false), LV::Driven(true), LV::Driven(true), LV::Driven(false)) => {
            (LV::Driven(true), LV::Driven(true), LV::Driven(false))
        }

        /* 0b01 + 0b11 = 0b00 w/overflow */
        (LV::Driven(false), LV::Driven(true), LV::Driven(true), LV::Driven(true)) => {
            (LV::Driven(false), LV::Driven(false), LV::Driven(true))
        }

        /* 0b10 + 0b00 = 0b10 */
        (LV::Driven(true), LV::Driven(false), LV::Driven(false), LV::Driven(false)) => {
            (LV::Driven(true), LV::Driven(false), LV::Driven(false))
        }

        /* 0b10 + 0b01 = 0b11 */
        (LV::Driven(true), LV::Driven(false), LV::Driven(false), LV::Driven(true)) => {
            (LV::Driven(true), LV::Driven(true), LV::Driven(false))
        }

        /* 0b11 + 0b00 = 0b11 */
        (LV::Driven(true), LV::Driven(true), LV::Driven(false), LV::Driven(false)) => {
            (LV::Driven(true), LV::Driven(true), LV::Driven(false))
        }

        /* 0b11 + 0b01 = 0b00 w/overflow */
        (LV::Driven(true), LV::Driven(true), LV::Driven(false), LV::Driven(true)) => {
            (LV::Driven(false), LV::Driven(false), LV::Driven(true))
        }

        /* 0b10 + 0b10 = 0b00 w/overflow */
        (LV::Driven(true), LV::Driven(false), LV::Driven(true), LV::Driven(false)) => {
            (LV::Driven(false), LV::Driven(false), LV::Driven(true))
        }

        /* 0b10 + 0b11 = 0b00 w/overflow */
        (LV::Driven(true), LV::Driven(false), LV::Driven(true), LV::Driven(true)) => {
            (LV::Driven(false), LV::Driven(true), LV::Driven(true))
        }

        /* 0b11 + 0b10 = 0b00 w/overflow */
        (LV::Driven(true), LV::Driven(true), LV::Driven(true), LV::Driven(false)) => {
            (LV::Driven(false), LV::Driven(true), LV::Driven(true))
        }

        /* 0b11 + 0b11 = 0b00 w/overflow */
        (LV::Driven(true), LV::Driven(true), LV::Driven(true), LV::Driven(true)) => {
            (LV::Driven(true), LV::Driven(false), LV::Driven(true))
        }

        /* Error cases with some non-error outputs. */

        /* 0bn0 + 0bx0 = 0bx0 w/overflow=x */
        (
            LV::Driven(_) | LV::HighImpedance | LV::Error,
            LV::Driven(false),
            LV::HighImpedance | LV::Error,
            LV::Driven(false),
        ) => (LV::Error, LV::Driven(false), LV::Error),

        /* 0bn0 + 0bx1 = 0bx1 w/overflow=x */
        (
            LV::Driven(_) | LV::HighImpedance | LV::Error,
            LV::Driven(false),
            LV::HighImpedance | LV::Error,
            LV::Driven(true),
        ) => (LV::Error, LV::Driven(true), LV::Error),

        /* 0bn1 + 0bx0 = 0bx0 w/overflow=x */
        (
            LV::Driven(_) | LV::HighImpedance | LV::Error,
            LV::Driven(true),
            LV::HighImpedance | LV::Error,
            LV::Driven(false),
        ) => (LV::Error, LV::Driven(true), LV::Error),

        /* 0bn1 + 0bx1 = 0bx0 w/overflow=x */
        (
            LV::Driven(_) | LV::HighImpedance | LV::Error,
            LV::Driven(true),
            LV::HighImpedance | LV::Error,
            LV::Driven(true),
        ) => (LV::Error, LV::Driven(false), LV::Error),

        /* 0bx0 + 0bn0 = 0bx0 w/overflow=x */
        (
            LV::HighImpedance | LV::Error,
            LV::Driven(false),
            LV::Driven(_),
            LV::Driven(false),
        ) => (LV::Error, LV::Driven(false), LV::Error),

        /* 0bx0 + 0bn1 = 0bx1 w/overflow=x */
        (LV::HighImpedance | LV::Error, LV::Driven(false), LV::Driven(_), LV::Driven(true)) => {
            (LV::Error, LV::Driven(true), LV::Error)
        }

        /* 0bx1 + 0bn0 = 0bx0 w/overflow=x */
        (LV::HighImpedance | LV::Error, LV::Driven(true), LV::Driven(_), LV::Driven(false)) => {
            (LV::Error, LV::Driven(true), LV::Error)
        }

        /* 0bx1 + 0bx1 = 0bx0 w/overflow=x */
        (LV::HighImpedance | LV::Error, LV::Driven(true), LV::Driven(_), LV::Driven(true)) => {
            (LV::Error, LV::Driven(false), LV::Error)
        }

        _ => (LV::Error, LV::Error, LV::Error),
    };

    let mut circuit = Circuit::new();
    let adder = RippleCarryAdder::new(&mut circuit, 2);
    let test_pin_a0 = TestPin::new(&mut circuit, DriveValue::HighImpedance);
    let test_pin_a1 = TestPin::new(&mut circuit, DriveValue::HighImpedance);
    let test_pin_b0 = TestPin::new(&mut circuit, DriveValue::HighImpedance);
    let test_pin_b1 = TestPin::new(&mut circuit, DriveValue::HighImpedance);

    Pin::connect(&mut circuit, test_pin_a0.get_output(), adder.get_input_a()[0]);
    Pin::connect(&mut circuit, test_pin_a1.get_output(), adder.get_input_a()[1]);
    Pin::connect(&mut circuit, test_pin_b0.get_output(), adder.get_input_b()[0]);
    Pin::connect(&mut circuit, test_pin_b1.get_output(), adder.get_input_b()[1]);
    let device = adder.as_any(&circuit);

    for a0 in drive_values().iter() {
        for a1 in drive_values().iter() {
            for b0 in drive_values().iter() {
                for b1 in drive_values().iter() {
                    test_pin_a0.set_drive(&mut circuit, *a0);
                    test_pin_a1.set_drive(&mut circuit, *a1);
                    test_pin_b0.set_drive(&mut circuit, *b0);
                    test_pin_b1.set_drive(&mut circuit, *b1);
                    settle(&mut circuit, &device);
                    let actual_s0 = adder.get_sum()[0].read(&circuit);
                    let actual_s1 = adder.get_sum()[1].read(&circuit);
                    let actual_overflow = adder.get_overflow().read(&circuit);
                    let (expected_s1, expected_s0, expected_overflow) =
                        expected(a0, a1, b0, b1);
                    assert_eq!(actual_s0, expected_s0);
                    assert_eq!(actual_s1, expected_s1);
                    assert_eq!(actual_overflow, expected_overflow);
                }
            }
        }
    }
}

// Fully tests the truth table (not including error conditions) for an n-bit ripple-carry
// adder.
fn test_ripple_carry_adder_n_bit(width: usize) {
    let max_value = 2usize.pow(width as u32);
    let set_pins = |circuit: &mut Circuit, pins: &Vec<TestPin>, value: usize| {
        for (index, pin) in pins.iter().enumerate() {
            pin.set_drive(
                circuit,
                DriveValue::Strong(value / 2usize.pow(index as u32) % 2 == 1),
            );
        }
    };
    let read_pins = |circuit: &Circuit, pins: &Vec<Pin>| {
        let mut sum = 0;
        for (index, pin) in pins.iter().enumerate() {
            if pin.read(circuit) == LV::Driven(true) {
                sum += 2usize.pow(index as u32);
            }
        }
        sum
    };

    let mut circuit = Circuit::new();
    let adder = RippleCarryAdder::new(&mut circuit, width);

    let test_pins_a: Vec<TestPin> = (0..width)
        .map(|_| TestPin::new(&mut circuit, DriveValue::HighImpedance))
        .collect();
    for (test_pin, input_pin) in test_pins_a.iter().zip(adder.get_input_a().iter()) {
        Pin::connect(&mut circuit, test_pin.get_output(), *input_pin);
    }

    let test_pins_b: Vec<TestPin> = (0..width)
        .map(|_| TestPin::new(&mut circuit, DriveValue::HighImpedance))
        .collect();
    for (test_pin, input_pin) in test_pins_b.iter().zip(adder.get_input_b().iter()) {
        Pin::connect(&mut circuit, test_pin.get_output(), *input_pin);
    }
    let device = adder.as_any(&circuit);

    for value_a in 0..max_value {
        for value_b in 0..max_value {
            set_pins(&mut circuit, &test_pins_a, value_a);
            set_pins(&mut circuit, &test_pins_b, value_b);
            settle(&mut circuit, &device);
            let actual_sum = read_pins(&circuit, adder.get_sum());
            let actual_overflow = adder.get_overflow().read(&circuit);
            assert_eq!(actual_sum, (value_a + value_b) % max_value);
            assert_eq!(actual_overflow, LV::Driven(value_a + value_b >= max_value));
            // A settled network stays settled.
            assert!(!tick(&mut circuit, &device));
        }
    }
}

// This is a high-level test that tests that the logic in the adders is actually equivalent to
// unsigned integer addition.
#[test]
fn test_ripple_carry_adder_logic() {
    test_ripple_carry_adder_n_bit(1);
    test_ripple_carry_adder_n_bit(2);
    test_ripple_carry_adder_n_bit(3);
    test_ripple_carry_adder_n_bit(4);
}

#[test]
fn test_ripple_carry_adder_two_bit_sums() {
    let mut circuit = Circuit::new();
    let adder = RippleCarryAdder::new(&mut circuit, 2);
    let a0 = TestPin::new(&mut circuit, DriveValue::Strong(false));
    let a1 = TestPin::new(&mut circuit, DriveValue::Strong(false));
    let b0 = TestPin::new(&mut circuit, DriveValue::Strong(false));
    let b1 = TestPin::new(&mut circuit, DriveValue::Strong(false));
    Pin::connect(&mut circuit, a0.get_output(), adder.get_input_a()[0]);
    Pin::connect(&mut circuit, a1.get_output(), adder.get_input_a()[1]);
    Pin::connect(&mut circuit, b0.get_output(), adder.get_input_b()[0]);
    Pin::connect(&mut circuit, b1.get_output(), adder.get_input_b()[1]);
    let device = adder.as_any(&circuit);

    // 0b01 + 0b11 = 0b00 with overflow.
    a0.set_drive(&mut circuit, DriveValue::Strong(true));
    a1.set_drive(&mut circuit, DriveValue::Strong(false));
    b0.set_drive(&mut circuit, DriveValue::Strong(true));
    b1.set_drive(&mut circuit, DriveValue::Strong(true));
    settle(&mut circuit, &device);
    assert_eq!(adder.get_sum()[0].read(&circuit), LogicValue::Driven(false));
    assert_eq!(adder.get_sum()[1].read(&circuit), LogicValue::Driven(false));
    assert_eq!(adder.get_overflow().read(&circuit), LogicValue::Driven(true));

    // 0b10 + 0b11 = 0b01 with overflow.
    a0.set_drive(&mut circuit, DriveValue::Strong(false));
    a1.set_drive(&mut circuit, DriveValue::Strong(true));
    settle(&mut circuit, &device);
    assert_eq!(adder.get_sum()[0].read(&circuit), LogicValue::Driven(true));
    assert_eq!(adder.get_sum()[1].read(&circuit), LogicValue::Driven(false));
    assert_eq!(adder.get_overflow().read(&circuit), LogicValue::Driven(true));
}

#[test]
fn test_half_adder_clean_inputs() {
    let mut circuit = Circuit::new();
    let half_adder = HalfAdder::new(&mut circuit);
    let a = TestPin::new(&mut circuit, DriveValue::Strong(true));
    let b = TestPin::new(&mut circuit, DriveValue::Strong(true));
    Pin::connect(&mut circuit, a.get_output(), half_adder.get_a());
    Pin::connect(&mut circuit, b.get_output(), half_adder.get_b());
    let device = half_adder.as_any(&circuit);
    settle(&mut circuit, &device);
    assert_eq!(half_adder.get_sum().read(&circuit), LogicValue::Driven(false));
    assert_eq!(half_adder.get_carry().read(&circuit), LogicValue::Driven(true));
    a.set_drive(&mut circuit, DriveValue::Strong(false));
    settle(&mut circuit, &device);
    assert_eq!(half_adder.get_sum().read(&circuit), LogicValue::Driven(true));
    assert_eq!(half_adder.get_carry().read(&circuit), LogicValue::Driven(false));
}
