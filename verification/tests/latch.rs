use digital_logic::settle;
use digital_logic::tick;
use digital_logic::Circuit;
use digital_logic::Constant;
use digital_logic::Device;
use digital_logic::DriveValue;
use digital_logic::LogicValue;
use digital_logic::Pin;
use digital_logic::SrLatch;
use digital_logic::TestPin;

#[test]
fn test_sr_latch() {
    let mut circuit = Circuit::new();
    let weak_true = Constant::new_weak(&mut circuit, true);
    let weak_false = Constant::new_weak(&mut circuit, false);
    let latch = SrLatch::new(&mut circuit);
    let test_pin_set = TestPin::new(&mut circuit, DriveValue::Strong(false));
    let test_pin_reset = TestPin::new(&mut circuit, DriveValue::Strong(false));

    let check = |circuit: &Circuit, latch: &SrLatch, value: bool| {
        assert_eq!(
            latch.get_output().read(circuit),
            LogicValue::Driven(value)
        );
        assert_eq!(
            latch.get_output_inverted().read(circuit),
            LogicValue::Driven(!value)
        );
    };

    Pin::connect(&mut circuit, weak_false.get_output(), latch.get_output());
    Pin::connect(&mut circuit, test_pin_set.get_output(), latch.get_set());
    Pin::connect(&mut circuit, weak_true.get_output(), latch.get_output_inverted());
    Pin::connect(&mut circuit, test_pin_reset.get_output(), latch.get_reset());
    let device = latch.as_any(&circuit);

    settle(&mut circuit, &device);
    check(&circuit, &latch, false);

    (0..3).for_each(|_| {
        test_pin_set.set_drive(&mut circuit, DriveValue::Strong(true));
        settle(&mut circuit, &device);
        check(&circuit, &latch, true);

        test_pin_set.set_drive(&mut circuit, DriveValue::Strong(false));
        settle(&mut circuit, &device);
        check(&circuit, &latch, true);

        test_pin_reset.set_drive(&mut circuit, DriveValue::Strong(true));
        settle(&mut circuit, &device);
        check(&circuit, &latch, false);

        test_pin_reset.set_drive(&mut circuit, DriveValue::Strong(false));
        settle(&mut circuit, &device);
        check(&circuit, &latch, false);

        // Once settled, a further tick changes nothing.
        assert!(!tick(&mut circuit, &device));
    });
}
