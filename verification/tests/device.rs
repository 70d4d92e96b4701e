use digital_logic::render;
use digital_logic::settle;
use digital_logic::tick;
use digital_logic::AnyDevice;
use digital_logic::Circuit;
use digital_logic::Constant;
use digital_logic::Device;
use digital_logic::DeviceContainer;
use digital_logic::DriveValue;
use digital_logic::LogicValue;
use digital_logic::NotGate;
use digital_logic::Pin;
use digital_logic::TestPin;
use digital_logic::Transistor;

// A device that is no struct has no parts to show.
#[derive(Debug, PartialEq)]
enum TestEnum {
    SingleValue,
}

impl TestEnum {
    fn as_any(&self) -> AnyDevice {
        AnyDevice::composite("TestEnum".to_string(), vec![], vec![])
    }
}

// A device that has a list of pins but no single pin.
struct TestJustPins {
    p: Vec<Pin>,
}

impl TestJustPins {
    fn get_p(&self) -> &Vec<Pin> {
        &self.p
    }

    fn as_any(&self) -> AnyDevice {
        AnyDevice::composite(
            "TestJustPins".to_string(),
            vec![("p".to_string(), DeviceContainer::Multiple(self.p.clone()))],
            vec![],
        )
    }
}

#[test]
fn test_enum_device() {
    assert_eq!(TestEnum::SingleValue, TestEnum::SingleValue);
    let device = TestEnum::SingleValue.as_any();
    assert!(device.pins.is_empty());
    assert!(device.children.is_empty());
    assert!(device.transistor.is_none());
    assert_eq!(device.device_type, "TestEnum");
}

#[test]
fn test_just_pins() {
    let test_device = TestJustPins { p: vec![] };
    assert_eq!(test_device.get_p().len(), 0);
    let device = test_device.as_any();
    assert_eq!(device.pins.len(), 1);
    assert_eq!(device.pins[0].0, "p");
    assert!(matches!(&device.pins[0].1, DeviceContainer::Multiple(pins) if pins.is_empty()));
    let circuit = Circuit::new();
    assert_eq!(
        render(&circuit, &device, 0, false),
        "type: TestJustPins\npins:\n  p:\n"
    );
}

// A device with no pins and no children can nevertheless be simulated.
#[test]
fn empty_device() {
    let mut circuit = Circuit::new();
    let empty_device = AnyDevice::composite("EmptyDevice".to_string(), vec![], vec![]);
    assert!(!tick(&mut circuit, &empty_device));
    assert!(!tick(&mut circuit, &empty_device));
    assert_eq!(settle(&mut circuit, &empty_device), 0);
    assert_eq!(render(&circuit, &empty_device, 2, true), "- type: EmptyDevice\n");
    assert_eq!(render(&circuit, &empty_device, 2, false), "  type: EmptyDevice\n");
}

// A simple device that has fields for pins and children with both single and multiple
// entries. In operation this is a NOT gate, but instead of tying the inputs together, the
// NMOS and PMOS inputs are separate.
struct SimpleDevice {
    strong_true: Constant,
    strong_false: Constant,
    nmos: Vec<Transistor>,
    pmos: Transistor,
    input: Vec<Pin>,
    output: Pin,
}

impl SimpleDevice {
    fn new(circuit: &mut Circuit) -> Self {
        let strong_true = Constant::new_strong(circuit, true);
        let strong_false = Constant::new_strong(circuit, false);
        let nmos = vec![Transistor::new_nmos(circuit)];
        let pmos = Transistor::new_pmos(circuit);
        let input = vec![nmos[0].get_gate(circuit), pmos.get_gate(circuit)];
        let output = pmos.get_drain(circuit);

        Pin::connect(circuit, strong_false.get_output(), nmos[0].get_source(circuit));
        Pin::connect(circuit, strong_true.get_output(), pmos.get_source(circuit));
        Pin::connect(circuit, nmos[0].get_drain(circuit), pmos.get_drain(circuit));

        Self {
            strong_true,
            strong_false,
            nmos,
            pmos,
            input,
            output,
        }
    }

    fn get_input(&self) -> &Vec<Pin> {
        &self.input
    }

    fn get_output(&self) -> Pin {
        self.output
    }

    fn as_any(&self, circuit: &Circuit) -> AnyDevice {
        AnyDevice::composite(
            "SimpleDevice".to_string(),
            vec![
                ("input".to_string(), DeviceContainer::Multiple(self.input.clone())),
                ("output".to_string(), DeviceContainer::Single(self.output)),
            ],
            vec![
                (
                    "strong_true".to_string(),
                    DeviceContainer::Single(self.strong_true.as_any(circuit)),
                ),
                (
                    "strong_false".to_string(),
                    DeviceContainer::Single(self.strong_false.as_any(circuit)),
                ),
                (
                    "nmos".to_string(),
                    DeviceContainer::Multiple(
                        self.nmos.iter().map(|n| n.as_any(circuit)).collect(),
                    ),
                ),
                ("pmos".to_string(), DeviceContainer::Single(self.pmos.as_any(circuit))),
            ],
        )
    }
}

#[test]
fn simple_device() {
    let mut circuit = Circuit::new();
    let simple_device = SimpleDevice::new(&mut circuit);
    let device = simple_device.as_any(&circuit);
    simple_device.get_input()[0].set_drive(&mut circuit, DriveValue::Strong(true));
    simple_device.get_input()[1].set_drive(&mut circuit, DriveValue::Strong(true));
    assert_eq!(settle(&mut circuit, &device), 2);
    assert_eq!(
        LogicValue::Driven(false),
        simple_device.get_output().read(&circuit)
    );
    let text = render(&circuit, &device, 0, false);
    assert!(text.starts_with(
        "type: SimpleDevice\npins:\n  input:\n    drive: Strong(true)\n    read: Driven(true)\n    id: 3\n    connected:\n      - 3\n"
    ));
    assert!(text.contains("children:\n  strong_true:\n    type: Constant\n    pins:\n      output:\n        drive: Strong(true)\n"));
    assert!(text.contains("  nmos:\n    - type: Transistor\n      pins:\n        source:\n          drive: HighImpedance\n          read: Driven(false)\n          id: 2\n          connected:\n            - 1\n            - 2\n"));
    assert!(text.contains("  pmos:\n    type: Transistor\n    pins:\n      source:\n"));
}

#[test]
fn test_render_transistor() {
    let mut circuit = Circuit::new();
    let nmos = Transistor::new_nmos(&mut circuit);
    let device = nmos.as_any(&circuit);
    let expected = "type: Transistor\n\
pins:\n\
\x20 source:\n\
\x20   drive: HighImpedance\n\
\x20   read: HighImpedance\n\
\x20   id: 0\n\
\x20   connected:\n\
\x20     - 0\n\
\x20 gate:\n\
\x20   drive: HighImpedance\n\
\x20   read: HighImpedance\n\
\x20   id: 1\n\
\x20   connected:\n\
\x20     - 1\n\
\x20 drain:\n\
\x20   drive: HighImpedance\n\
\x20   read: HighImpedance\n\
\x20   id: 2\n\
\x20   connected:\n\
\x20     - 2\n";
    assert_eq!(render(&circuit, &device, 0, false), expected);
}

#[test]
fn test_render_indents_members_of_a_sequence() {
    let mut circuit = Circuit::new();
    let test_pin = TestPin::new(&mut circuit, DriveValue::Weak(false));
    for _ in 0..11 {
        Pin::new(&mut circuit, DriveValue::HighImpedance);
    }
    let far = Pin::new(&mut circuit, DriveValue::Error);
    Pin::connect(&mut circuit, test_pin.get_output(), far);
    let device = test_pin.as_any(&circuit);
    assert_eq!(
        render(&circuit, &device, 4, true),
        "  - type: TestPin\n    pins:\n      output:\n        drive: Weak(false)\n        read: Error\n        id: 0\n        connected:\n          - 0\n          - 12\n"
    );
}

#[test]
fn test_device_accessors_name_the_fields() {
    let mut circuit = Circuit::new();
    let not_gate = NotGate::new(&mut circuit);
    assert_eq!(not_gate.device_type(), "NotGate");
    let pins = not_gate.pins(&circuit);
    assert_eq!(pins.len(), 2);
    assert_eq!(pins[0].0, "input");
    assert!(matches!(pins[0].1, DeviceContainer::Single(pin) if pin == not_gate.get_input()));
    assert_eq!(pins[1].0, "output");
    assert!(matches!(pins[1].1, DeviceContainer::Single(pin) if pin == not_gate.get_output()));
    let children = not_gate.children(&circuit);
    let names: Vec<&str> = children.iter().map(|(name, _)| name.as_str()).collect();
    assert_eq!(names, vec!["constant_true", "constant_false", "nmos", "pmos"]);
    // Only the transistors carry the mark that the simulation looks for.
    let marks: Vec<bool> = children
        .iter()
        .map(|(_, child)| match child {
            DeviceContainer::Single(device) => device.transistor.is_some(),
            DeviceContainer::Multiple(_) => false,
        })
        .collect();
    assert_eq!(marks, vec![false, false, true, true]);
}
