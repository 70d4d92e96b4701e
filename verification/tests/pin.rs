use digital_logic::Circuit;
use digital_logic::DriveValue;
use digital_logic::LogicValue;
use digital_logic::Pin;

// Ensure the initial value actually gets set.
#[test]
fn test_pin_initial_value() {
    let mut circuit = Circuit::new();
    let pin_1 = Pin::new(&mut circuit, DriveValue::HighImpedance);
    assert_eq!(pin_1.get_drive(&circuit), DriveValue::HighImpedance);
    assert_eq!(pin_1.read(&circuit), LogicValue::HighImpedance);

    let pin_2 = Pin::new(&mut circuit, DriveValue::Strong(true));
    assert_eq!(pin_2.get_drive(&circuit), DriveValue::Strong(true));
    assert_eq!(pin_2.read(&circuit), LogicValue::Driven(true));
}

// Ensure that the pin and its wire get updated when needed.
#[test]
fn test_pin_read_update() {
    let mut circuit = Circuit::new();
    let pin = Pin::new(&mut circuit, DriveValue::HighImpedance);

    // Set the drive, but the change should not be immediately visible.
    pin.set_drive(&mut circuit, DriveValue::Strong(true));
    assert_eq!(pin.get_drive(&circuit), DriveValue::HighImpedance);
    assert_eq!(pin.read(&circuit), LogicValue::HighImpedance);

    // Tick to make the change visible.
    pin.tick(&mut circuit);
    assert_eq!(pin.get_drive(&circuit), DriveValue::Strong(true));
    assert_eq!(pin.read(&circuit), LogicValue::Driven(true));

    // Ticking again doesn't change anything.
    pin.tick(&mut circuit);
    assert_eq!(pin.get_drive(&circuit), DriveValue::Strong(true));
    assert_eq!(pin.read(&circuit), LogicValue::Driven(true));

    // Set the drive to what it already is. This is fine, and won't do anything, but does take a
    // different branch.
    pin.set_drive(&mut circuit, DriveValue::Strong(true));
    pin.tick(&mut circuit);
    assert_eq!(pin.get_drive(&circuit), DriveValue::Strong(true));
    assert_eq!(pin.read(&circuit), LogicValue::Driven(true));
}

// Ensure a pin can be connected to itself (which does nothing).
#[test]
fn test_connect_self() {
    let mut circuit = Circuit::new();
    let pin = Pin::new(&mut circuit, DriveValue::HighImpedance);
    Pin::connect(&mut circuit, pin, pin);
    assert_eq!(pin.get_connected_pins(&circuit), vec![pin]);
}

// Ensure multiple pins can be connected together.
#[test]
fn test_connect_pins() {
    let mut circuit = Circuit::new();
    // Connect two pins and ensure both pins return the same set of all pins.
    let pin_1 = Pin::new(&mut circuit, DriveValue::HighImpedance);
    let pin_2 = Pin::new(&mut circuit, DriveValue::HighImpedance);
    Pin::connect(&mut circuit, pin_1, pin_2);

    let all_pins = pin_1.get_connected_pins(&circuit);
    assert_eq!(all_pins.len(), 2);
    assert!(pin_1 == all_pins[0]);
    assert!(pin_2 == all_pins[1]);

    let all_pins = pin_2.get_connected_pins(&circuit);
    assert_eq!(all_pins.len(), 2);
    assert!(pin_1 == all_pins[0]);
    assert!(pin_2 == all_pins[1]);

    // Add a third pin, and ensure all three pins return the same set of all pins.
    let pin_3 = Pin::new(&mut circuit, DriveValue::HighImpedance);
    Pin::connect(&mut circuit, pin_2, pin_3);

    let all_pins = pin_1.get_connected_pins(&circuit);
    assert_eq!(all_pins.len(), 3);
    assert!(pin_1 == all_pins[0]);
    assert!(pin_2 == all_pins[1]);
    assert!(pin_3 == all_pins[2]);

    let all_pins = pin_2.get_connected_pins(&circuit);
    assert_eq!(all_pins.len(), 3);
    assert!(pin_1 == all_pins[0]);
    assert!(pin_2 == all_pins[1]);
    assert!(pin_3 == all_pins[2]);

    let all_pins = pin_3.get_connected_pins(&circuit);
    assert_eq!(all_pins.len(), 3);
    assert!(pin_1 == all_pins[0]);
    assert!(pin_2 == all_pins[1]);
    assert!(pin_3 == all_pins[2]);
}

#[test]
fn test_pin_tick_reports_change() {
    let mut circuit = Circuit::new();
    let pin = Pin::new(&mut circuit, DriveValue::HighImpedance);
    assert!(!pin.tick(&mut circuit));
    pin.set_drive(&mut circuit, DriveValue::Weak(false));
    assert!(pin.tick(&mut circuit));
    pin.set_drive(&mut circuit, DriveValue::Weak(false));
    assert!(!pin.tick(&mut circuit));
}

#[test]
fn test_connect_resolves_drives_together() {
    let mut circuit = Circuit::new();
    let weak = Pin::new(&mut circuit, DriveValue::Weak(true));
    let strong = Pin::new(&mut circuit, DriveValue::Strong(false));
    let idle = Pin::new(&mut circuit, DriveValue::HighImpedance);
    Pin::connect(&mut circuit, weak, strong);
    assert_eq!(weak.read(&circuit), LogicValue::Driven(false));
    assert_eq!(strong.read(&circuit), LogicValue::Driven(false));
    assert_eq!(idle.read(&circuit), LogicValue::HighImpedance);
    Pin::connect(&mut circuit, idle, weak);
    assert_eq!(idle.read(&circuit), LogicValue::Driven(false));
    assert_eq!(idle.get_connected_pins(&circuit), vec![idle, weak, strong]);
    // A drive of its own is kept by each pin.
    assert_eq!(weak.get_drive(&circuit), DriveValue::Weak(true));
}

#[test]
fn test_connect_is_idempotent() {
    let mut circuit = Circuit::new();
    let pin_1 = Pin::new(&mut circuit, DriveValue::Strong(true));
    let pin_2 = Pin::new(&mut circuit, DriveValue::HighImpedance);
    Pin::connect(&mut circuit, pin_1, pin_2);
    let before = pin_1.get_connected_pins(&circuit);
    Pin::connect(&mut circuit, pin_1, pin_2);
    Pin::connect(&mut circuit, pin_2, pin_1);
    assert_eq!(pin_1.get_connected_pins(&circuit), before);
    assert_eq!(pin_2.get_connected_pins(&circuit), before);
    assert_eq!(pin_2.read(&circuit), LogicValue::Driven(true));
}

#[test]
fn test_shorted_wire_reads_error() {
    let mut circuit = Circuit::new();
    let high = Pin::new(&mut circuit, DriveValue::Strong(true));
    let low = Pin::new(&mut circuit, DriveValue::Strong(false));
    Pin::connect(&mut circuit, high, low);
    assert_eq!(high.read(&circuit), LogicValue::Error);
    // The short goes away when one side lets go.
    low.set_drive(&mut circuit, DriveValue::HighImpedance);
    low.tick(&mut circuit);
    assert_eq!(high.read(&circuit), LogicValue::Driven(true));
}
