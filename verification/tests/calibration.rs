use rufaco::fan::{CalAction, Calibrator, RpmWindow};

/// Run a calibration against a simulated fan that starts spinning at
/// `start_pwm` and keeps spinning until the PWM falls below `min_pwm`;
/// while spinning it reports `(pwm + 1) * 100` RPM.
fn measure_fan(min_pwm: u8, start_pwm: u8) {
    let mut pwm: u8 = 0;
    let mut running = false;

    let (mut cal, first_pwm) = Calibrator::new(0, 0, 5);
    pwm = first_pwm;
    if pwm < min_pwm {
        running = false;
    } else if pwm >= start_pwm {
        running = true;
    }

    let mut guard = 0u64;
    loop {
        guard += 1;
        assert!(guard < 1_000_000, "calibration did not terminate");
        let rpm: i64 = if running { (pwm as i64 + 1) * 100 } else { 0 };
        match cal.feed(rpm) {
            CalAction::Wait => {},
            CalAction::SetPwm(q) => {
                pwm = q;
                if pwm < min_pwm {
                    running = false;
                } else if pwm >= start_pwm {
                    running = true;
                }
            },
            CalAction::Done(mn, st) => {
                assert_eq!(mn, min_pwm);
                assert_eq!(st, start_pwm);
                assert!(mn <= st);
                return;
            },
        }
    }
}

#[test]
fn test_measure() {
    measure_fan(21, 42);
    measure_fan(1, 1);
    measure_fan(0, 0);
}

#[test]
fn window_settles_on_stable_samples() {
    let mut w = RpmWindow::empty();
    // Fewer than five samples never settle.
    assert_eq!(w.push(1000, 30), None);
    assert_eq!(w.push(1000, 30), None);
    assert_eq!(w.push(1000, 30), None);
    assert_eq!(w.push(1000, 30), None);
    // The fifth stable sample settles on the mean.
    assert_eq!(w.push(1000, 30), Some(1000));
}

#[test]
fn window_waits_for_noise_to_leave() {
    let mut w = RpmWindow::empty();
    // A noisy burst keeps the window unsettled...
    assert_eq!(w.push(0, 30), None);
    assert_eq!(w.push(4000, 30), None);
    assert_eq!(w.push(900, 30), None);
    assert_eq!(w.push(900, 30), None);
    assert_eq!(w.push(900, 30), None);
    // ...until five samples within tolerance remain: mean of five 900s.
    assert_eq!(w.push(900, 30), None);
    assert_eq!(w.push(900, 30), Some(900));
}

#[test]
fn window_reports_spread_mean_within_tolerance() {
    let mut w = RpmWindow::empty();
    assert_eq!(w.push(990, 30), None);
    assert_eq!(w.push(1010, 30), None);
    assert_eq!(w.push(1000, 30), None);
    assert_eq!(w.push(995, 30), None);
    // Mean of 990, 1010, 1000, 995, 1005 is 1000; max deviation 10.
    assert_eq!(w.push(1005, 30), Some(1000));
}
