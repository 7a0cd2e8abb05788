use std::cell::RefCell;
use std::rc::Rc;

use rufaco::common::{ReadableValue, SensorType, SensorValue, UpdatableInput, UpdatableOutput};
use rufaco::config::{FanConfig, FileConfig, SensorType as ConfigSensorType};
use rufaco::fan::{FanInput, FanOutput, FanSensor};

struct MockFanInput {
    val: Rc<RefCell<u32>>,
}

impl FanInput for MockFanInput {
    fn get_input(&self) -> Result<u32, String> {
        Ok(*self.val.borrow())
    }
}

struct DummyPwm {
    last_val: u8,
}

impl FanOutput for DummyPwm {
    fn set_output(&mut self, pwm: u8) {
        self.last_val = pwm;
    }

    fn get_output(&self) -> u8 {
        self.last_val
    }
}

fn percent(p: i64) -> SensorValue {
    SensorValue::new(SensorType::PERCENTAGE, 1000, p)
}

fn init() -> (FanSensor<MockFanInput, DummyPwm>, Rc<RefCell<u32>>) {
    let fan_input_val = Rc::new(RefCell::new(0u32));
    let fan_input = MockFanInput { val: fan_input_val.clone() };
    let sensor = ConfigSensorType::File(FileConfig { path: "test".to_string() });
    let fan_config = FanConfig {
        id: "test_sensor".to_string(),
        minpwm: Some(21),
        startpwm: Some(42),
        curve: "dummy".to_string(),
        sensor,
    };
    let fan = FanSensor::new(&fan_config, fan_input, DummyPwm { last_val: 0 }, 0);
    (fan, fan_input_val)
}

#[test]
fn test_spinning() {
    let (mut fan, fan_input_val) = init();
    fan.update_input();
    assert_eq!(fan.get_value().as_scaled_value(), 0);
    assert!(!fan.is_spinning());
    *fan_input_val.borrow_mut() = 4242;
    fan.update_input();
    assert_eq!(fan.get_value().as_scaled_value(), 4242);
    assert!(fan.is_spinning());
}

#[test]
fn test_fan() {
    let (mut fan, fan_input_val) = init();
    let now: u64 = 1_000_000;

    fan.update_output(&percent(0), now);
    assert_eq!(fan.fan_pwm.get_output(), 0);
    fan.update_output(&percent(100), now);
    assert_eq!(fan.fan_pwm.get_output(), 255);
    *fan_input_val.borrow_mut() = 0;
    fan.update_output(&percent(0), now);
    assert_eq!(fan.fan_pwm.get_output(), 0);
    assert_eq!(fan.get_value().as_scaled_value(), 0);
    fan.update_output(&percent(1), now);
    assert!(fan.fan_pwm.get_output() <= 42);
    *fan_input_val.borrow_mut() = 4242;
    fan.update_input();
    fan.update_output(&percent(1), now);
    assert!(fan.fan_pwm.get_output() <= 42);
    assert!(fan.fan_pwm.get_output() >= 21);

    // Set demand to zero but pretend it just happened: the fan must keep
    // spinning above its minimum.
    fan.zero_percent_time = Some(now);
    fan.update_output(&percent(0), now);
    assert!(fan.fan_pwm.get_output() >= 21);
    // Set the time far enough in the past and the fan is let go to zero.
    fan.zero_percent_time = Some(now - 100_000);
    fan.update_output(&percent(0), now);
    assert_eq!(fan.fan_pwm.get_output(), 0);
}

struct FailingFanInput {
    val: Rc<RefCell<u32>>,
    fail: Rc<RefCell<bool>>,
}

impl FanInput for FailingFanInput {
    fn get_input(&self) -> Result<u32, String> {
        if *self.fail.borrow() {
            Err("read failed".to_string())
        } else {
            Ok(*self.val.borrow())
        }
    }
}

#[test]
fn rpm_read_result_policy() {
    let (mut fan, _fan_input_val) = init();
    // A successful read stores the returned speed.
    fan.apply_rpm_reading(Ok(500));
    assert_eq!(fan.last_val, 500);
    // A failed read keeps the previous value.
    fan.apply_rpm_reading(Err("read failed".to_string()));
    assert_eq!(fan.last_val, 500);
    fan.apply_rpm_reading(Ok(0));
    assert_eq!(fan.last_val, 0);
}

#[test]
fn failed_rpm_read_keeps_previous_value() {
    let val = Rc::new(RefCell::new(4242u32));
    let fail = Rc::new(RefCell::new(false));
    let input = FailingFanInput { val: val.clone(), fail: fail.clone() };
    let sensor = ConfigSensorType::File(FileConfig { path: "test".to_string() });
    let fan_config = FanConfig {
        id: "test_sensor".to_string(),
        minpwm: Some(21),
        startpwm: Some(42),
        curve: "dummy".to_string(),
        sensor,
    };
    let mut fan = FanSensor::new(&fan_config, input, DummyPwm { last_val: 0 }, 0);

    fan.update_input();
    assert_eq!(fan.last_val, 4242);
    *fail.borrow_mut() = true;
    *val.borrow_mut() = 1;
    fan.update_input();
    assert_eq!(fan.last_val, 4242);
    *fail.borrow_mut() = false;
    fan.update_input();
    assert_eq!(fan.last_val, 1);
}

#[test]
fn demand_is_clamped_to_percent_range() {
    let (mut fan, fan_input_val) = init();
    *fan_input_val.borrow_mut() = 1000;
    fan.update_input();
    let now: u64 = 1_000_000;
    // Far beyond 100 percent: behaves as 100 percent.
    fan.update_output(&percent(100_000), now);
    assert_eq!(fan.fan_pwm.get_output(), 255);
    // Negative demand behaves as zero, with the minimum floor applied
    // while the fan still spins and the hysteresis window is open.
    fan.update_output(&percent(-50), now);
    assert_eq!(fan.fan_pwm.get_output(), 21);
}
