use rufaco::common::{SensorType, SensorValue};

#[test]
fn test_sensor_value_cmp() {
    let sensor_value1 = SensorValue::new(SensorType::PERCENTAGE, 1000, 50);
    let sensor_value2 = SensorValue::new(SensorType::PERCENTAGE, 1000, 25);

    assert!(sensor_value1 > sensor_value2);
    assert!(!(sensor_value1 < sensor_value2));
    assert!(sensor_value2 < sensor_value1);
    assert!(sensor_value1 != sensor_value2);
}

#[test]
fn test_sensor_value() {
    let sensor_value = SensorValue::new(SensorType::PERCENTAGE, 0, 50);

    assert_eq!(sensor_value.get_sensor_type(), SensorType::PERCENTAGE);

    assert_eq!(sensor_value.as_raw_value(), 50);
    assert_eq!(sensor_value.as_scaled_value(), 0);

    let sensor_value = SensorValue::new(SensorType::PERCENTAGE, 1000, 50);
    assert_eq!(sensor_value.as_scaled_value(), 50);
    let sensor_value = SensorValue::new(SensorType::PERCENTAGE, 1500, 50);
    assert_eq!(sensor_value.as_scaled_value(), 75);
    let sensor_value = SensorValue::new(SensorType::PERCENTAGE, 100, 50);
    assert_eq!(sensor_value.as_scaled_value(), 5);
}

#[test]
fn ordering_compares_scaled_values_across_kinds() {
    // 50 degrees stored as millidegrees equals a percentage of 50: both
    // scale to the same value, so neither is smaller.
    let temp = SensorValue::new(SensorType::TEMPERATURE, 1, 50_000);
    let pct = SensorValue::new(SensorType::PERCENTAGE, 1000, 50);
    assert!(!(temp < pct));
    assert!(!(pct < temp));
    assert!(temp <= pct && pct <= temp);

    let hotter = SensorValue::new(SensorType::TEMPERATURE, 1, 50_001);
    assert!(pct < hotter);
    assert!(hotter > pct);

    // Negative raw values order below zero.
    let below = SensorValue::new(SensorType::TEMPERATURE, 1, -1_000);
    let zero = SensorValue::new(SensorType::PERCENTAGE, 1000, 0);
    assert!(below < zero);
}
