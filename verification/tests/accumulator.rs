use digital_logic::value::drive_value_accumulator::DriveValueAccumulator;
use digital_logic::DriveValue;
use digital_logic::LogicValue;

#[test]
fn test_drive_value_accumulator_update() {
    let mut accumulator = DriveValueAccumulator::new();
    assert_eq!(
        accumulator.update(DriveValue::HighImpedance, DriveValue::HighImpedance),
        LogicValue::HighImpedance
    );
    assert_eq!(
        accumulator.update(DriveValue::HighImpedance, DriveValue::Strong(true)),
        LogicValue::Driven(true)
    );
    assert_eq!(
        accumulator.update(DriveValue::Strong(true), DriveValue::Strong(false)),
        LogicValue::Driven(false)
    );
    assert_eq!(
        accumulator.update(DriveValue::Strong(false), DriveValue::Weak(true)),
        LogicValue::Driven(true)
    );
    assert_eq!(
        accumulator.update(DriveValue::Weak(true), DriveValue::Weak(false)),
        LogicValue::Driven(false)
    );
    assert_eq!(
        accumulator.update(DriveValue::Weak(false), DriveValue::Error),
        LogicValue::Error
    );
    assert_eq!(
        accumulator.update(DriveValue::Error, DriveValue::HighImpedance),
        LogicValue::HighImpedance
    );
}

#[test]
fn test_drive_value_accumulator_add() {
    let mut accumulator_1 = DriveValueAccumulator::new();
    let mut accumulator_2 = DriveValueAccumulator::new();
    accumulator_1.update(DriveValue::HighImpedance, DriveValue::Weak(true));
    accumulator_2.update(DriveValue::HighImpedance, DriveValue::Strong(false));
    assert_eq!(accumulator_1.add(&accumulator_2), LogicValue::Driven(false));
}

#[test]
fn test_drive_value_accumulator_strong_short() {
    let mut accumulator = DriveValueAccumulator::new();
    accumulator.update(DriveValue::HighImpedance, DriveValue::Strong(true));
    assert_eq!(
        accumulator.update(DriveValue::HighImpedance, DriveValue::Strong(false)),
        LogicValue::Error
    );
}

#[test]
fn test_drive_value_accumulator_weak_short() {
    let mut accumulator = DriveValueAccumulator::new();
    accumulator.update(DriveValue::HighImpedance, DriveValue::Weak(true));
    assert_eq!(
        accumulator.update(DriveValue::HighImpedance, DriveValue::Weak(false)),
        LogicValue::Error
    );
}

#[test]
fn test_accumulator_new_resolves_to_high_impedance() {
    let accumulator = DriveValueAccumulator::new();
    assert_eq!(accumulator.get_value(), LogicValue::HighImpedance);
}

#[test]
fn test_accumulator_priority_table() {
    // (strong true, strong false, weak true, weak false, error) present or not.
    for mask in 0..32u32 {
        let mut accumulator = DriveValueAccumulator::new();
        let st = mask & 1 != 0;
        let sf = mask & 2 != 0;
        let wt = mask & 4 != 0;
        let wf = mask & 8 != 0;
        let e = mask & 16 != 0;
        let mut value = accumulator.get_value();
        if st {
            value = accumulator.update(DriveValue::HighImpedance, DriveValue::Strong(true));
        }
        if sf {
            value = accumulator.update(DriveValue::HighImpedance, DriveValue::Strong(false));
        }
        if wt {
            value = accumulator.update(DriveValue::HighImpedance, DriveValue::Weak(true));
        }
        if wf {
            value = accumulator.update(DriveValue::HighImpedance, DriveValue::Weak(false));
        }
        if e {
            value = accumulator.update(DriveValue::HighImpedance, DriveValue::Error);
        }
        let expected = if e || (st && sf) || (wt && wf) {
            LogicValue::Error
        } else if st {
            LogicValue::Driven(true)
        } else if sf {
            LogicValue::Driven(false)
        } else if wt {
            LogicValue::Driven(true)
        } else if wf {
            LogicValue::Driven(false)
        } else {
            LogicValue::HighImpedance
        };
        assert_eq!(value, expected);
        assert_eq!(accumulator.get_value(), expected);
    }
}

#[test]
fn test_accumulator_counts_are_exact() {
    // Two pins drive strong true: taking one away must leave the wire driven.
    let mut accumulator = DriveValueAccumulator::new();
    accumulator.update(DriveValue::HighImpedance, DriveValue::Strong(true));
    accumulator.update(DriveValue::HighImpedance, DriveValue::Strong(true));
    assert_eq!(
        accumulator.update(DriveValue::Strong(true), DriveValue::HighImpedance),
        LogicValue::Driven(true)
    );
    assert_eq!(
        accumulator.update(DriveValue::Strong(true), DriveValue::HighImpedance),
        LogicValue::HighImpedance
    );
}
