use rufaco::common::{ReadableValue, SensorType, SensorValue};
use rufaco::config;
use rufaco::curve::{AverageCurve, LinearCurve, MaximumCurve, NodeRef, PidCurve, StaticCurve};

fn temp(millidegrees: i64) -> SensorValue {
    SensorValue::new(SensorType::TEMPERATURE, 1, millidegrees)
}

fn percent(p: i64) -> SensorValue {
    SensorValue::new(SensorType::PERCENTAGE, 1000, p)
}

#[test]
fn test_curve_linear() {
    let curve_conf = config::LinearCurve {
        sensor: "test".to_string(),
        steps: vec![(0, 10), (100, 110), (200, 310)],
    };
    let linear_curve = LinearCurve::new(NodeRef::Source(0), &curve_conf);

    // Test curve parameters: the slope and intercept of each segment.
    let curve_functions = &linear_curve.functions;
    assert_eq!(curve_functions.len(), 2);
    let m0 = (curve_functions[0].y1 - curve_functions[0].y0) as f64
        / (curve_functions[0].x1 - curve_functions[0].x0) as f64;
    let b0 = curve_functions[0].y0 as f64 - m0 * curve_functions[0].x0 as f64;
    assert_eq!(m0, 1.0);
    assert_eq!(b0, 10.0);
    let m1 = (curve_functions[1].y1 - curve_functions[1].y0) as f64
        / (curve_functions[1].x1 - curve_functions[1].x0) as f64;
    let b1 = curve_functions[1].y0 as f64 - m1 * curve_functions[1].x0 as f64;
    assert_eq!(m1, 2.0);
    assert_eq!(b1, -90.0);

    // Test actual values.
    assert_eq!(linear_curve.get_value(&temp(0)).as_raw_value(), 10);
    assert_eq!(linear_curve.get_value(&temp(100 * 1000)).as_raw_value(), 110);
    assert_eq!(linear_curve.get_value(&temp(150 * 1000)).as_raw_value(), 210);
}

#[test]
fn linear_below_first_breakpoint_is_zero() {
    let curve_conf = config::LinearCurve {
        sensor: "test".to_string(),
        steps: vec![(0, 10), (100, 110), (200, 310)],
    };
    let linear_curve = LinearCurve::new(NodeRef::Source(0), &curve_conf);
    assert_eq!(linear_curve.get_value(&temp(-1000)).as_raw_value(), 0);
}

#[test]
fn linear_extrapolates_above_last_breakpoint() {
    let curve_conf =
        config::LinearCurve { sensor: "test".to_string(), steps: vec![(0, 10), (100, 110)] };
    let linear_curve = LinearCurve::new(NodeRef::Source(0), &curve_conf);
    // 150 degrees: the last segment continues with slope one.
    assert_eq!(linear_curve.get_value(&temp(150 * 1000)).as_raw_value(), 160);
}

#[test]
fn test_curve_max() {
    let values = vec![percent(10), percent(50), percent(100)];
    let max_curve = MaximumCurve { sensors: vec![] };

    assert_eq!(max_curve.get_value(&values).as_raw_value(), 100);
}

#[test]
fn test_curve_avg() {
    let values = vec![percent(10), percent(50), percent(100)];
    let avg_curve = AverageCurve { sensors: vec![] };

    assert_eq!(avg_curve.get_value(&values).as_raw_value(), 53);
}

#[test]
fn aggregates_over_no_children_are_zero() {
    let values: Vec<SensorValue> = vec![];
    let max_curve = MaximumCurve { sensors: vec![] };
    let avg_curve = AverageCurve { sensors: vec![] };
    assert_eq!(max_curve.get_value(&values).as_raw_value(), 0);
    assert_eq!(avg_curve.get_value(&values).as_raw_value(), 0);
}

#[test]
fn aggregates_over_one_child_return_the_child() {
    let values = vec![percent(37)];
    let max_curve = MaximumCurve { sensors: vec![] };
    let avg_curve = AverageCurve { sensors: vec![] };
    assert_eq!(max_curve.get_value(&values).as_raw_value(), 37);
    assert_eq!(avg_curve.get_value(&values).as_raw_value(), 37);
}

#[test]
fn static_curve_returns_its_value() {
    let sc = StaticCurve { value: 42 };
    let v = sc.get_value();
    assert_eq!(v.as_raw_value(), 42);
    assert_eq!(v.get_sensor_type(), SensorType::PERCENTAGE);
}

#[test]
fn test_curve_pid() {
    let mut pid_curve = PidCurve::new(NodeRef::Source(0), 1000, 1000, 1000, 0);
    pid_curve.update_value(&temp(10));

    assert_eq!(pid_curve.get_value().as_raw_value(), 0);
    pid_curve.update_value(&temp(100 * 1000));
    assert_eq!(pid_curve.get_value().as_raw_value(), 100);

    pid_curve.set_target(50 * 1000);
    pid_curve.update_value(&temp(10 * 1000));
    assert_eq!(pid_curve.get_value().as_raw_value(), 0);

    pid_curve.update_value(&temp(49 * 1000));
    assert!(pid_curve.get_value().as_raw_value() > 0);

    pid_curve.update_value(&temp(51 * 1000));
    assert!(pid_curve.get_value().as_raw_value() > 0);
}
