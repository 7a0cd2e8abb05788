use rufaco::config::{
    AverageCurve, CurveFunction, FanConfig, FanCurve, FileConfig, LinearCurve, MaximumCurve,
    PidCurve, RufacoConfig, SensorConfig, SensorType, StaticCurve,
};

fn file_sensor(id: &str) -> SensorConfig {
    SensorConfig {
        id: id.to_string(),
        sensor: SensorType::File(FileConfig { path: "test".to_string() }),
    }
}

#[test]
fn minimal_config() {
    let sensor_config = file_sensor("test_sensor1");
    let sensor_config2 = file_sensor("test_sensor2");
    let curve_func = CurveFunction::Maximum(MaximumCurve {
        sensors: vec!["test_sensor1".to_string(), "test_sensor2".to_string()],
    });
    let curve = FanCurve { id: "test_curve".to_string(), function: curve_func };
    let curves = vec![curve];
    let conf = RufacoConfig { sensors: vec![sensor_config, sensor_config2], fans: vec![], curves };

    assert!(conf.validate());
    let conf_empty = RufacoConfig { sensors: vec![], fans: vec![], curves: vec![] };
    assert!(conf_empty.validate());
}

#[test]
fn all_curves_config() {
    let sensor_config = file_sensor("test_sensor1");
    let sensor_config2 = file_sensor("test_sensor2");

    let curve_funcs = vec![
        CurveFunction::Maximum(MaximumCurve {
            sensors: vec!["test_sensor1".to_string(), "test_sensor2".to_string()],
        }),
        CurveFunction::Pid(PidCurve {
            p: 1000,
            i: 1000,
            d: 1000,
            sensor: "test_sensor1".to_string(),
            target: 5000,
        }),
        CurveFunction::Linear(LinearCurve {
            sensor: "test_sensor1".to_string(),
            steps: vec![(0, 0), (100, 100)],
        }),
        CurveFunction::Static(StaticCurve { value: 1 }),
        CurveFunction::Average(AverageCurve {
            sensors: vec!["test_sensor1".to_string(), "test_sensor2".to_string()],
        }),
    ];

    let mut i = 0;
    let curves: Vec<FanCurve> = curve_funcs
        .into_iter()
        .map(|c| {
            i += 1;
            FanCurve { id: format!("test_curve_{}", i), function: c }
        })
        .collect();

    let conf = RufacoConfig { sensors: vec![sensor_config, sensor_config2], fans: vec![], curves };

    assert!(conf.validate());
}

#[test]
fn non_existing_sensor_config() {
    let sensor_config = file_sensor("test_sensor1");
    let curve_func = CurveFunction::Maximum(MaximumCurve { sensors: vec!["invalid".to_string()] });
    let curve = FanCurve { id: "test_curve".to_string(), function: curve_func };
    let curves = vec![curve];
    let conf = RufacoConfig { sensors: vec![sensor_config], fans: vec![], curves };

    assert!(!conf.validate());
}

#[test]
fn cyclic_curves_fail_validation() {
    // Curve a reads curve b which reads curve a: every id resolves, but
    // the reference graph has a cycle.
    let sensor_config = file_sensor("t");
    let curve_a = FanCurve {
        id: "a".to_string(),
        function: CurveFunction::Maximum(MaximumCurve { sensors: vec!["b".to_string()] }),
    };
    let curve_b = FanCurve {
        id: "b".to_string(),
        function: CurveFunction::Average(AverageCurve { sensors: vec!["a".to_string()] }),
    };
    let conf = RufacoConfig {
        sensors: vec![sensor_config],
        fans: vec![],
        curves: vec![curve_a, curve_b],
    };
    assert!(!conf.validate());

    // The same two curves chained without the back edge validate.
    let curve_a = FanCurve {
        id: "a".to_string(),
        function: CurveFunction::Maximum(MaximumCurve { sensors: vec!["t".to_string()] }),
    };
    let curve_b = FanCurve {
        id: "b".to_string(),
        function: CurveFunction::Average(AverageCurve { sensors: vec!["a".to_string()] }),
    };
    let conf = RufacoConfig {
        sensors: vec![file_sensor("t")],
        fans: vec![],
        curves: vec![curve_a, curve_b],
    };
    assert!(conf.validate());
}

#[test]
fn self_referencing_curve_fails_validation() {
    let conf = RufacoConfig {
        sensors: vec![],
        fans: vec![],
        curves: vec![FanCurve {
            id: "loop_curve".to_string(),
            function: CurveFunction::Maximum(MaximumCurve {
                sensors: vec!["loop_curve".to_string()],
            }),
        }],
    };
    assert!(!conf.validate());
}

#[test]
fn linear_needs_two_ascending_steps() {
    let single_step = RufacoConfig {
        sensors: vec![file_sensor("t")],
        fans: vec![],
        curves: vec![FanCurve {
            id: "c".to_string(),
            function: CurveFunction::Linear(LinearCurve {
                sensor: "t".to_string(),
                steps: vec![(0, 0)],
            }),
        }],
    };
    assert!(!single_step.validate());

    let not_ascending = RufacoConfig {
        sensors: vec![file_sensor("t")],
        fans: vec![],
        curves: vec![FanCurve {
            id: "c".to_string(),
            function: CurveFunction::Linear(LinearCurve {
                sensor: "t".to_string(),
                steps: vec![(10, 0), (10, 50)],
            }),
        }],
    };
    assert!(!not_ascending.validate());
}

#[test]
fn fan_curve_must_resolve() {
    let conf = RufacoConfig {
        sensors: vec![file_sensor("t")],
        fans: vec![FanConfig {
            id: "fan1".to_string(),
            startpwm: None,
            minpwm: None,
            sensor: SensorType::File(FileConfig { path: "test".to_string() }),
            curve: "missing".to_string(),
        }],
        curves: vec![],
    };
    assert!(!conf.validate());
}
