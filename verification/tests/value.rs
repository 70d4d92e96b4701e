use digital_logic::DriveValue;
use digital_logic::LogicValue;

#[test]
fn test_drive_value_from_logic_value() {
    assert_eq!(
        DriveValue::Strong(true),
        DriveValue::from(LogicValue::Driven(true))
    );
    assert_eq!(
        DriveValue::Strong(false),
        DriveValue::from(LogicValue::Driven(false))
    );
    assert_eq!(
        DriveValue::HighImpedance,
        DriveValue::from(LogicValue::HighImpedance)
    );
    assert_eq!(DriveValue::Error, DriveValue::from(LogicValue::Error));
}

#[test]
fn test_logic_value_from_drive_value() {
    assert_eq!(
        LogicValue::Driven(true),
        LogicValue::from(DriveValue::Strong(true))
    );
    assert_eq!(
        LogicValue::Driven(true),
        LogicValue::from(DriveValue::Weak(true))
    );
    assert_eq!(
        LogicValue::Driven(false),
        LogicValue::from(DriveValue::Strong(false))
    );
    assert_eq!(
        LogicValue::Driven(false),
        LogicValue::from(DriveValue::Weak(false))
    );
    assert_eq!(
        LogicValue::HighImpedance,
        LogicValue::from(DriveValue::HighImpedance)
    );
    assert_eq!(LogicValue::Error, LogicValue::from(DriveValue::Error));
}
