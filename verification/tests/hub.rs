use std::cell::RefCell;
use std::rc::Rc;

use rufaco::config::{
    CurveFunction, FanConfig, FanCurve, FileConfig, LinearCurve, MaximumCurve, PidCurve,
    RufacoConfig, SensorConfig, SensorType, StaticCurve,
};
use rufaco::fan::{FanInput, FanOutput};
use rufaco::fanhub::{ConfigError, FanHub};

struct MockFanInput {
    val: Rc<RefCell<u32>>,
}

impl FanInput for MockFanInput {
    fn get_input(&self) -> Result<u32, String> {
        Ok(*self.val.borrow())
    }
}

struct DummyPwm {
    last_val: u8,
}

impl FanOutput for DummyPwm {
    fn set_output(&mut self, pwm: u8) {
        self.last_val = pwm;
    }

    fn get_output(&self) -> u8 {
        self.last_val
    }
}

fn file_sensor(id: &str) -> SensorConfig {
    SensorConfig {
        id: id.to_string(),
        sensor: SensorType::File(FileConfig { path: "test".to_string() }),
    }
}

fn fan_conf(id: &str, curve: &str) -> FanConfig {
    FanConfig {
        id: id.to_string(),
        startpwm: Some(42),
        minpwm: Some(21),
        sensor: SensorType::File(FileConfig { path: "test".to_string() }),
        curve: curve.to_string(),
    }
}

fn one_fan_io() -> (Vec<(MockFanInput, DummyPwm)>, Rc<RefCell<u32>>) {
    let rpm = Rc::new(RefCell::new(0u32));
    (vec![(MockFanInput { val: rpm.clone() }, DummyPwm { last_val: 0 })], rpm)
}

#[test]
fn hub_runs_a_tick_in_order() {
    let config = RufacoConfig {
        sensors: vec![file_sensor("cpu")],
        curves: vec![FanCurve {
            id: "heat".to_string(),
            function: CurveFunction::Linear(LinearCurve {
                sensor: "cpu".to_string(),
                steps: vec![(30, 0), (70, 100)],
            }),
        }],
        fans: vec![fan_conf("fan1", "heat")],
    };
    let (ios, rpm) = one_fan_io();
    let mut hub = FanHub::new(config, ios).unwrap();

    let now: u64 = 1_000_000;
    // 50 degrees: halfway along the curve, a stopped fan uses its start
    // PWM as the floor: round(0.5 * 213) + 42.
    hub.update(&vec![Some(50_000)], now);
    assert_eq!(hub.sensors[0].last_val, 50_000);
    assert_eq!(hub.curve_values[0].as_raw_value(), 50);
    assert_eq!(hub.fans[0].fan_pwm.get_output(), 149);

    // A spinning fan scales over its minimum PWM instead.
    *rpm.borrow_mut() = 4242;
    hub.update(&vec![Some(50_000)], now);
    assert_eq!(hub.fans[0].fan_pwm.get_output(), 138);

    // A failed reading keeps the previous temperature.
    hub.update(&vec![None], now);
    assert_eq!(hub.sensors[0].last_val, 50_000);
    assert_eq!(hub.curve_values[0].as_raw_value(), 50);
}

#[test]
fn hub_evaluates_aggregates_over_fresh_values() {
    let config = RufacoConfig {
        sensors: vec![file_sensor("cpu")],
        curves: vec![
            FanCurve {
                id: "lin".to_string(),
                function: CurveFunction::Linear(LinearCurve {
                    sensor: "cpu".to_string(),
                    steps: vec![(30, 0), (70, 100)],
                }),
            },
            FanCurve {
                id: "boost".to_string(),
                function: CurveFunction::Static(StaticCurve { value: 20 }),
            },
            FanCurve {
                id: "mix".to_string(),
                function: CurveFunction::Maximum(MaximumCurve {
                    sensors: vec!["lin".to_string(), "boost".to_string()],
                }),
            },
        ],
        fans: vec![fan_conf("fan1", "mix")],
    };
    let (ios, _rpm) = one_fan_io();
    let mut hub = FanHub::new(config, ios).unwrap();
    let now: u64 = 1_000_000;

    hub.update(&vec![Some(50_000)], now);
    assert_eq!(hub.curve_values[2].as_raw_value(), 50);

    hub.update(&vec![Some(10_000)], now);
    // The linear curve is below its first breakpoint, the static boost
    // wins the maximum.
    assert_eq!(hub.curve_values[0].as_raw_value(), 0);
    assert_eq!(hub.curve_values[2].as_raw_value(), 20);
}

#[test]
fn hub_integrates_pid_each_tick() {
    let config = RufacoConfig {
        sensors: vec![file_sensor("cpu")],
        curves: vec![FanCurve {
            id: "ctl".to_string(),
            function: CurveFunction::Pid(PidCurve {
                sensor: "cpu".to_string(),
                target: 0,
                p: 1000,
                i: 1000,
                d: 1000,
            }),
        }],
        fans: vec![fan_conf("fan1", "ctl")],
    };
    let (ios, _rpm) = one_fan_io();
    let mut hub = FanHub::new(config, ios).unwrap();
    let now: u64 = 1_000_000;

    hub.update(&vec![Some(100_000)], now);
    // One hundred degrees over target saturates the controller.
    assert_eq!(hub.curve_values[0].as_raw_value(), 100);
    assert_eq!(hub.fans[0].fan_pwm.get_output(), 255);
}

#[test]
fn build_rejects_forward_references() {
    // The curve order is untrusted: a reference to a later curve is a
    // configuration error even though the id exists.
    let config = RufacoConfig {
        sensors: vec![file_sensor("cpu")],
        curves: vec![
            FanCurve {
                id: "a".to_string(),
                function: CurveFunction::Maximum(MaximumCurve { sensors: vec!["b".to_string()] }),
            },
            FanCurve {
                id: "b".to_string(),
                function: CurveFunction::Static(StaticCurve { value: 10 }),
            },
        ],
        fans: vec![],
    };
    let err = match FanHub::<MockFanInput, DummyPwm>::new(config, vec![]) {
        Ok(_) => panic!("expected a configuration error"),
        Err(e) => e,
    };
    assert!(matches!(err, ConfigError::UnknownId { .. }));
}

#[test]
fn build_rejects_bad_linear_and_pid_parameters() {
    let config = RufacoConfig {
        sensors: vec![file_sensor("cpu")],
        curves: vec![FanCurve {
            id: "c".to_string(),
            function: CurveFunction::Linear(LinearCurve {
                sensor: "cpu".to_string(),
                steps: vec![(0, 0)],
            }),
        }],
        fans: vec![],
    };
    let err = match FanHub::<MockFanInput, DummyPwm>::new(config, vec![]) {
        Ok(_) => panic!("expected a configuration error"),
        Err(e) => e,
    };
    assert!(matches!(err, ConfigError::InvalidLinear { .. }));

    let config = RufacoConfig {
        sensors: vec![file_sensor("cpu")],
        curves: vec![FanCurve {
            id: "c".to_string(),
            function: CurveFunction::Pid(PidCurve {
                sensor: "cpu".to_string(),
                target: 0,
                p: 2_000_000,
                i: 0,
                d: 0,
            }),
        }],
        fans: vec![],
    };
    let err = match FanHub::<MockFanInput, DummyPwm>::new(config, vec![]) {
        Ok(_) => panic!("expected a configuration error"),
        Err(e) => e,
    };
    assert!(matches!(err, ConfigError::ValueOutOfRange { .. }));
}

#[test]
fn build_rejects_unknown_fan_curve() {
    let config = RufacoConfig {
        sensors: vec![file_sensor("cpu")],
        curves: vec![],
        fans: vec![fan_conf("fan1", "missing")],
    };
    let (ios, _rpm) = one_fan_io();
    let err = match FanHub::new(config, ios) {
        Ok(_) => panic!("expected a configuration error"),
        Err(e) => e,
    };
    assert!(matches!(err, ConfigError::UnknownId { .. }));
}
