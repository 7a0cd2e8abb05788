//! Fan output stage: reading RPM, translating a percentage demand into a
//! PWM byte under the stall floor and stop hysteresis, and the
//! auto-calibration state machine that discovers a fan's start and
//! minimum PWM.
//!
//! The hardware channels sit behind the `FanInput` / `FanOutput` traits,
//! as the hardware-backed and test implementations both do.  Waiting
//! between RPM samples and watching the termination flag belong to the
//! caller of the calibration machine: it feeds settled measurements in
//! and performs the returned actions.

use vstd::prelude::*;

use crate::common::{
    ReadableValue, SensorType, SensorValue, UpdatableInput, UpdatableOutput,
};
use crate::config::FanConfig;
use crate::num::{clamp_to, div_trunc};

verus! {

/// An RPM input channel.
pub trait FanInput {
    fn get_input(&self) -> Result<u32, String>;
}

/// A PWM output channel.
pub trait FanOutput {
    /// Set the fan output to `pwm`.
    fn set_output(&mut self, pwm: u8);

    /// Get the currently set value.
    fn get_output(&self) -> u8;
}

/// The demand clamped to a whole percentage in `[0, 100]`.
pub open spec fn demand_percent(d: SensorValue) -> int {
    clamp_to(if d.scaled_unit() < 0 {
        0
    } else {
        d.scaled_unit()
    }, 100)
}

/// The provisional PWM floor and the new hysteresis timestamp for one
/// update: the stall floor (start PWM for a stopped fan), cleared when a
/// stopped fan is asked for less than its start percentage, and cleared
/// after ten seconds of demand below ten percent.
pub open spec fn fan_floor_spec(
    min_pwm: u8,
    start_pwm: u8,
    start_percent: int,
    rpm: int,
    p: int,
    zero_since: Option<u64>,
    now: u64,
) -> (int, Option<u64>) {
    let m0 = if rpm >= 1 {
        min_pwm as int
    } else {
        start_pwm as int
    };
    let m1 = if p < start_percent && rpm == 0 {
        0
    } else {
        m0
    };
    if p < 10 {
        match zero_since {
            Some(t) => (
                if now >= t && now - t > 10_000 {
                    0
                } else {
                    m1
                },
                Some(t),
            ),
            None => (m1, Some(now)),
        }
    } else {
        (m1, None)
    }
}

/// The written PWM byte: the demand scaled over the range above the
/// floor, rounded to the nearest byte.
pub open spec fn fan_pwm_spec(p: int, floor: int) -> int {
    div_trunc(p * (255 - floor) + 50, 100) + floor
}

/// The PWM law: the written byte is a byte, it never falls strictly
/// between zero and the chosen floor, a zero demand writes the floor
/// itself, and zero is written exactly when both the demand and the
/// hysteresis-chosen floor are zero.
pub proof fn lemma_pwm_bounds(p: int, floor: int)
    requires
        0 <= p <= 100,
        0 <= floor <= 255,
    ensures
        floor <= fan_pwm_spec(p, floor) <= 255,
        p == 0 ==> fan_pwm_spec(p, floor) == floor,
        fan_pwm_spec(p, floor) == 0 <==> (p == 0 && floor == 0),
{
    let num = p * (255 - floor) + 50;
    assert(0 <= p * (255 - floor) <= 100 * (255 - floor)) by (nonlinear_arith)
        requires
            0 <= p <= 100,
            0 <= floor <= 255,
    ;
    crate::num::lemma_div_trunc_bounds(num, 100);
    crate::num::lemma_div_trunc_mul_bound(num, 100);
    let q = div_trunc(num, 100);
    assert(q <= 255 - floor) by {
        if q > 255 - floor {
            assert(q * 100 > (255 - floor) * 100) by (nonlinear_arith)
                requires
                    q > 255 - floor,
            ;
            assert(100 * (255 - floor) + 50 < (255 - floor) * 100 + 100) by (nonlinear_arith);
        }
    };
    if p == 0 {
        assert(0 * (255 - floor) == 0) by (nonlinear_arith);
        assert(div_trunc(50, 100) == 0) by {
            vstd::arithmetic::div_mod::lemma_basic_div(50, 100);
        };
    }
    if p >= 1 && floor == 0 {
        assert(p * 255 >= 255) by (nonlinear_arith)
            requires
                p >= 1,
        ;
        assert(q >= 1) by {
            if q < 1 {
                assert(q * 100 < 100) by (nonlinear_arith)
                    requires
                        q < 1,
                ;
            }
        };
    }
}

/// A fan: RPM input, PWM output, the index of its bound curve, and the
/// physical parameters that shape the demand-to-PWM translation.
pub struct FanSensor<I: FanInput, O: FanOutput> {
    pub id: String,
    /// The fan input sensor.
    pub fan_input: I,
    /// The pwm output of the fan.
    pub fan_pwm: O,
    /// Index of the bound curve in the scheduler's curve list.
    pub curve: usize,
    pub last_val: u32,
    /// Min PWM to keep the fan spinning.
    pub min_pwm: u8,
    /// PWM to start the fan.
    pub start_pwm: u8,
    /// Percentage below which a stopped fan is left stopped.
    pub start_percent: i64,
    /// When demand first fell below ten percent; after ten seconds the
    /// fan is allowed to stop, preventing spin-up/spin-down loops.
    pub zero_percent_time: Option<u64>,
    /// The PWM byte most recently written to the output.
    pub last_pwm: u8,
}

impl<I: FanInput, O: FanOutput> FanSensor<I, O> {
    pub fn new(conf: &FanConfig, fan_input: I, fan_pwm: O, curve: usize) -> (r: FanSensor<I, O>)
        ensures
            r.id@ == conf.id@,
            r.curve == curve,
            r.last_val == 0,
            r.min_pwm == match conf.minpwm {
                Some(v) => v,
                None => 0,
            },
            r.start_pwm == match conf.startpwm {
                Some(v) => v,
                None => 0,
            },
            r.start_percent == 20,
            r.zero_percent_time matches None,
            r.last_pwm == 0,
            r.fan_input == fan_input,
            r.fan_pwm == fan_pwm,
    {
        let min_pwm = match conf.minpwm {
            Some(v) => v,
            None => 0,
        };
        let start_pwm = match conf.startpwm {
            Some(v) => v,
            None => 0,
        };
        FanSensor {
            id: conf.id.clone(),
            fan_input,
            fan_pwm,
            curve,
            last_val: 0,
            min_pwm,
            start_pwm,
            start_percent: 20,
            zero_percent_time: None,
            last_pwm: 0,
        }
    }

    /// Whether the last RPM reading shows the fan turning.
    pub fn is_spinning(&self) -> (r: bool)
        ensures
            r == (self.last_val >= 1),
    {
        self.last_val >= 1
    }

    /// Apply the outcome of one RPM read: a successful read stores the
    /// returned speed, a failed read keeps the previous value, and
    /// nothing else changes.
    pub fn apply_rpm_reading(&mut self, reading: Result<u32, String>)
        ensures
            final(self).last_val == match reading {
                Ok(v) => v,
                Err(_) => old(self).last_val,
            },
            same_but_rpm(*old(self), *final(self)),
    {
        match reading {
            Ok(speed) => {
                self.last_val = speed;
            },
            Err(_err) => {},
        }
    }
}

/// Everything except the RPM reading is unchanged.
pub open spec fn same_but_rpm<I: FanInput, O: FanOutput>(
    a: FanSensor<I, O>,
    b: FanSensor<I, O>,
) -> bool {
    &&& a.id == b.id
    &&& a.fan_input == b.fan_input
    &&& a.fan_pwm == b.fan_pwm
    &&& a.curve == b.curve
    &&& a.min_pwm == b.min_pwm
    &&& a.start_pwm == b.start_pwm
    &&& a.start_percent == b.start_percent
    &&& a.zero_percent_time == b.zero_percent_time
    &&& a.last_pwm == b.last_pwm
}

impl<I: FanInput, O: FanOutput> UpdatableInput for FanSensor<I, O> {
    /// Refresh the RPM reading from the channel.  What the channel
    /// returns cannot be known here; how each outcome is handled is the
    /// contract of `apply_rpm_reading`, which this call goes through.
    fn update_input(&mut self)
        ensures
            same_but_rpm(*old(self), *final(self)),
    {
        let val = self.fan_input.get_input();
        self.apply_rpm_reading(val);
    }
}

impl<I: FanInput, O: FanOutput> UpdatableOutput for FanSensor<I, O> {
    /// One output update: refresh RPM, clamp the demand, choose the PWM
    /// floor under the hysteresis rules, and write the scaled byte.
    fn update_output(&mut self, demand: &SensorValue, now_ms: u64)
        ensures
            ({
                let p = demand_percent(*demand);
                let rpm = final(self).last_val as int;
                let fz = fan_floor_spec(
                    old(self).min_pwm,
                    old(self).start_pwm,
                    old(self).start_percent as int,
                    rpm,
                    p,
                    old(self).zero_percent_time,
                    now_ms,
                );
                &&& final(self).last_pwm as int == fan_pwm_spec(p, fz.0)
                &&& final(self).zero_percent_time == fz.1
                &&& final(self).id == old(self).id
                &&& final(self).fan_input == old(self).fan_input
                &&& final(self).curve == old(self).curve
                &&& final(self).min_pwm == old(self).min_pwm
                &&& final(self).start_pwm == old(self).start_pwm
                &&& final(self).start_percent == old(self).start_percent
            }),
    {
        self.update_input();
        let percentage: i64 = demand_to_percent(demand);
        let spinning = self.is_spinning();
        let mut min_pwm: u8 = if spinning {
            self.min_pwm
        } else {
            self.start_pwm
        };
        if percentage < self.start_percent && self.last_val == 0 {
            // Don't try to spin a stopped fan below its start region.
            min_pwm = 0;
        }
        if percentage < 10 {
            match self.zero_percent_time {
                Some(time) => {
                    if now_ms >= time && now_ms - time > 10_000 {
                        min_pwm = 0;
                    }
                },
                None => {
                    self.zero_percent_time = Some(now_ms);
                },
            }
        } else {
            self.zero_percent_time = None;
        }
        proof {
            lemma_pwm_bounds(demand_percent(*demand), min_pwm as int);
        }
        let range: i64 = 255 - (min_pwm as i64);
        let pwm_val: i64 = crate::num::div_trunc_i64(percentage * range + 50, 100) + (
        min_pwm as i64);
        let pwm_byte: u8 = pwm_val as u8;
        self.fan_pwm.set_output(pwm_byte);
        self.last_pwm = pwm_byte;
    }
}

/// The demand's scaled value clamped to `[0, 100]`, executed without any
/// assumption on the value.
fn demand_to_percent(d: &SensorValue) -> (r: i64)
    ensures
        r == demand_percent(*d),
{
    proof {
        crate::common::lemma_sensor_value_bounds(*d);
        crate::num::lemma_mul_bounds_abs(
            d.raw_spec(),
            d.factor_spec(),
            0x8000_0000_0000_0000,
            0x8000_0000_0000_0000,
        );
    }
    let milli: i128 = (d.as_raw_value() as i128) * (d.factor_milli_value() as i128);
    let unit: i128 = crate::num::div_trunc_i128(milli, 1000);
    if unit < 0 {
        0
    } else if unit > 100 {
        100
    } else {
        unit as i64
    }
}

impl<I: FanInput, O: FanOutput> ReadableValue for FanSensor<I, O> {
    /// The last RPM reading as an RPM-tagged value.
    fn get_value(&self) -> (r: SensorValue)
        ensures
            r.kind_spec() == SensorType::RPM,
            r.factor_spec() == 1000,
            r.raw_spec() == self.last_val as int,
            r.wf(),
    {
        SensorValue::new(SensorType::RPM, 1000, self.last_val as i64)
    }
}

/// The sum of a sequence of samples.
pub open spec fn sum_seq(s: Seq<i64>) -> int
    decreases s.len(),
{
    if s.len() == 0 {
        0
    } else {
        sum_seq(s.drop_last()) + s.last()
    }
}

/// The ring of samples after pushing one more: the most recent five are
/// kept.
pub open spec fn window_after(s: Seq<i64>, rpm: i64) -> Seq<i64> {
    let t = s.push(rpm);
    if t.len() > 5 {
        t.drop_first()
    } else {
        t
    }
}

/// The settled mean of a full window.
pub open spec fn window_mean(s: Seq<i64>) -> int {
    div_trunc(sum_seq(s), 5)
}

/// A full window is settled when no sample deviates from the mean by
/// more than the tolerance.
pub open spec fn window_settled(s: Seq<i64>, tol: int) -> bool {
    &&& s.len() == 5
    &&& forall|i: int|
        0 <= i < s.len() ==> -tol <= #[trigger] s[i] - window_mean(s) <= tol
}

/// All samples are bounded.
pub open spec fn samples_wf(s: Seq<i64>) -> bool {
    forall|i: int|
        0 <= i < s.len() ==> -1_000_000_000_000_000 <= #[trigger] s[i] <= 1_000_000_000_000_000
}

/// The ring buffer of recent RPM samples used to detect a settled
/// reading.
pub struct RpmWindow {
    samples: Vec<i64>,
}

impl RpmWindow {
    pub closed spec fn view_spec(self) -> Seq<i64> {
        self.samples@
    }

    pub open spec fn wf(self) -> bool {
        &&& self.view_spec().len() <= 5
        &&& samples_wf(self.view_spec())
    }

    pub fn empty() -> (r: RpmWindow)
        ensures
            r.view_spec() == Seq::<i64>::empty(),
            r.wf(),
    {
        RpmWindow { samples: Vec::new() }
    }

    /// Push a sample; report the mean once the last five samples spread
    /// within the tolerance.
    pub fn push(&mut self, rpm: i64, tol: i64) -> (r: Option<i64>)
        requires
            old(self).wf(),
            -1_000_000_000_000_000 <= rpm <= 1_000_000_000_000_000,
            tol >= 0,
        ensures
            final(self).view_spec() == window_after(old(self).view_spec(), rpm),
            final(self).wf(),
            r == (if window_settled(window_after(old(self).view_spec(), rpm), tol as int) {
                Some(window_mean(window_after(old(self).view_spec(), rpm)) as i64)
            } else {
                None::<i64>
            }),
    {
        self.samples.push(rpm);
        if self.samples.len() > 5 {
            self.samples.remove(0);
        }
        proof {
            assert(self.samples@ =~= window_after(old(self).view_spec(), rpm));
        }
        if self.samples.len() < 5 {
            return None;
        }
        let mut sum: i64 = 0;
        let mut i: usize = 0;
        while i < self.samples.len()
            invariant
                self.wf(),
                self.view_spec() == window_after(old(self).view_spec(), rpm),
                self.view_spec().len() == 5,
                i <= 5,
                sum == sum_seq(self.view_spec().take(i as int)),
                -(i as int) * 1_000_000_000_000_000 <= sum <= (i as int) * 1_000_000_000_000_000,
            decreases self.samples@.len() - i,
        {
            proof {
                assert(self.view_spec().take(i + 1 as int).drop_last() =~= self.view_spec().take(
                    i as int,
                ));
                assert(self.view_spec().take(i + 1 as int).last() == self.view_spec()[i as int]);
            }
            sum = sum + self.samples[i];
            i = i + 1;
        }
        proof {
            assert(self.view_spec().take(5) =~= self.view_spec());
            crate::num::lemma_div_trunc_bounds(sum as int, 5);
        }
        let mean: i64 = crate::num::div_trunc_i64(sum, 5);
        let mut j: usize = 0;
        while j < self.samples.len()
            invariant
                self.wf(),
                self.view_spec() == window_after(old(self).view_spec(), rpm),
                self.view_spec().len() == 5,
                j <= 5,
                mean == window_mean(self.view_spec()),
                -1_000_000_000_000_000 <= mean <= 1_000_000_000_000_000,
                tol >= 0,
                forall|q: int|
                    0 <= q < j ==> -(tol as int) <= #[trigger] self.view_spec()[q] - window_mean(
                        self.view_spec(),
                    ) <= tol as int,
            decreases self.samples@.len() - j,
        {
            let diff: i64 = self.samples[j] - mean;
            if diff > tol || diff < -tol {
                return None;
            }
            j = j + 1;
        }
        Some(mean)
    }
}

/// Pushing a bounded sample onto a bounded window keeps it bounded.
proof fn lemma_window_after_wf(s: Seq<i64>, rpm: i64)
    requires
        samples_wf(s),
        -1_000_000_000_000_000 <= rpm <= 1_000_000_000_000_000,
    ensures
        samples_wf(window_after(s, rpm)),
{
    let t = s.push(rpm);
    let w = window_after(s, rpm);
    assert forall|i: int|
        0 <= i < w.len() implies -1_000_000_000_000_000 <= #[trigger] w[i]
        <= 1_000_000_000_000_000 by {
        if t.len() > 5 {
            assert(w[i] == t[i + 1]);
            if i + 1 < s.len() {
                assert(t[i + 1] == s[i + 1]);
            }
        } else {
            if i < s.len() {
                assert(w[i] == s[i]);
            }
        }
    };
}

/// The sum of bounded samples is bounded by the count times the bound.
proof fn lemma_sum_seq_bounded(s: Seq<i64>)
    requires
        samples_wf(s),
    ensures
        -(s.len() as int) * 1_000_000_000_000_000 <= sum_seq(s) <= (s.len() as int)
            * 1_000_000_000_000_000,
    decreases s.len(),
{
    if s.len() == 0 {
    } else {
        assert forall|i: int|
            0 <= i < s.drop_last().len() implies -1_000_000_000_000_000
            <= #[trigger] s.drop_last()[i] <= 1_000_000_000_000_000 by {
            assert(s.drop_last()[i] == s[i]);
        };
        lemma_sum_seq_bounded(s.drop_last());
        assert(s[s.len() - 1] == s.last());
        assert((s.len() as int) * 1_000_000_000_000_000 == (s.drop_last().len() as int)
            * 1_000_000_000_000_000 + 1_000_000_000_000_000) by (nonlinear_arith)
            requires
                s.len() >= 1,
                s.drop_last().len() == s.len() - 1,
        ;
    }
}

/// The settled mean of a bounded window fits the sample bound.
proof fn lemma_window_mean_small(s: Seq<i64>)
    requires
        s.len() == 5,
        samples_wf(s),
    ensures
        -1_000_000_000_000_000 <= window_mean(s) <= 1_000_000_000_000_000,
{
    lemma_sum_seq_bounded(s);
    crate::num::lemma_div_trunc_mul_bound(sum_seq(s), 5);
    let q = div_trunc(sum_seq(s), 5);
    if q > 1_000_000_000_000_000 {
        assert(q * 5 > 5_000_000_000_000_000) by (nonlinear_arith)
            requires
                q > 1_000_000_000_000_000,
        ;
    }
    if q < -1_000_000_000_000_000 {
        assert(q * 5 < -5_000_000_000_000_000) by (nonlinear_arith)
            requires
                q < -1_000_000_000_000_000,
        ;
    }
}

/// What the calibration protocol asks its driver to do next.
#[derive(Clone, Copy, Debug, PartialEq, Eq, Structural)]
pub enum CalAction {
    /// Keep sampling: wait the configured delay, read RPM, feed it back.
    Wait,
    /// Write this PWM, then keep sampling.
    SetPwm(u8),
    /// Calibration finished with `(min_pwm, start_pwm)`.
    Done(u8, u8),
}

/// The phase of the calibration protocol.
#[derive(Clone, Copy, Debug, PartialEq, Eq, Structural)]
pub enum CalPhase {
    /// Measuring at PWM 0 to establish a stopped fan.
    InitialStop,
    /// Binary search: measuring at the midpoint of `(lo, hi]`.
    Search { lo: u8, hi: u8 },
    /// After a spin at the midpoint: measuring at 0 to re-stop the fan.
    Restop { lo: u8, hi: u8 },
    /// Measuring at full PWM so the descent starts from a spinning fan.
    SpinUp,
    /// Descending: measuring at `pwm`.
    Descend { pwm: u8 },
    /// Finished; the result is fixed.
    Finished,
}

/// The midpoint used by the binary search.
pub open spec fn search_mid(lo: u8, hi: u8) -> u8 {
    (((hi - lo) / 2) + lo) as u8
}

/// Where the descent starts: two above the discovered start PWM, capped
/// at the byte range.
pub open spec fn descend_start(start_pwm: u8) -> u8 {
    if start_pwm > 253 {
        255
    } else {
        (start_pwm + 2) as u8
    }
}

/// The auto-calibration state machine.  The driver writes the PWM bytes
/// it is told to, waits, reads RPM, and feeds the samples back in; the
/// machine detects settled readings and walks the protocol: stop the
/// fan, binary-search the start PWM (re-stopping after every spin), spin
/// the fan up, then descend to the lowest PWM that keeps it turning.
pub struct Calibrator {
    pub max_rpm_diff: i64,
    pub window: RpmWindow,
    pub phase: CalPhase,
    pub min_pwm: u8,
    pub start_pwm: u8,
}

/// The calibration transition on one settled mean: the next phase,
/// minimum PWM, start PWM, and the action asked of the driver.
pub open spec fn advance_spec(phase: CalPhase, min_pwm: u8, start_pwm: u8, mean: int) -> (
    CalPhase,
    u8,
    u8,
    CalAction,
) {
    match phase {
        CalPhase::InitialStop => {
            if mean != 0 {
                // The fan does not stop: record a floor of zero and let
                // the descent confirm nothing lower stops it.
                (CalPhase::SpinUp, 0u8, start_pwm, CalAction::SetPwm(255))
            } else {
                (
                    CalPhase::Search { lo: 0, hi: 255 },
                    min_pwm,
                    start_pwm,
                    CalAction::SetPwm(search_mid(0, 255)),
                )
            }
        },
        CalPhase::Search { lo, hi } => {
            let mid = search_mid(lo, hi);
            if mean != 0 {
                (CalPhase::Restop { lo, hi: mid }, min_pwm, mid, CalAction::SetPwm(0))
            } else {
                if hi - mid <= 1 {
                    (CalPhase::SpinUp, 0u8, start_pwm, CalAction::SetPwm(255))
                } else {
                    (
                        CalPhase::Search { lo: mid, hi },
                        min_pwm,
                        start_pwm,
                        CalAction::SetPwm(search_mid(mid, hi)),
                    )
                }
            }
        },
        CalPhase::Restop { lo, hi } => {
            if hi - lo <= 1 {
                (CalPhase::SpinUp, 0u8, start_pwm, CalAction::SetPwm(255))
            } else {
                (
                    CalPhase::Search { lo, hi },
                    min_pwm,
                    start_pwm,
                    CalAction::SetPwm(search_mid(lo, hi)),
                )
            }
        },
        CalPhase::SpinUp => {
            let d0 = descend_start(start_pwm);
            (CalPhase::Descend { pwm: d0 }, min_pwm, start_pwm, CalAction::SetPwm(d0))
        },
        CalPhase::Descend { pwm } => {
            if mean == 0 {
                (CalPhase::Finished, min_pwm, start_pwm, CalAction::Done(min_pwm, start_pwm))
            } else if pwm == 0 {
                (CalPhase::Finished, 0u8, start_pwm, CalAction::Done(0, start_pwm))
            } else {
                (
                    CalPhase::Descend { pwm: (pwm - 1) as u8 },
                    pwm,
                    start_pwm,
                    CalAction::SetPwm((pwm - 1) as u8),
                )
            }
        },
        CalPhase::Finished => (phase, min_pwm, start_pwm, CalAction::Done(min_pwm, start_pwm)),
    }
}

impl Calibrator {
    pub closed spec fn window_spec(self) -> Seq<i64> {
        self.window.view_spec()
    }

    pub closed spec fn tol_spec(self) -> int {
        self.max_rpm_diff as int
    }

    pub open spec fn wf(self) -> bool {
        &&& self.window.wf()
        &&& self.max_rpm_diff >= 0
        &&& match self.phase {
            CalPhase::Search { lo, hi } => lo + 2 <= hi,
            CalPhase::Restop { lo, hi } => lo < hi,
            _ => true,
        }
    }

    /// Start a calibration from the fan's current parameters; the driver
    /// must first write PWM 0 (the returned byte) and then sample.
    pub fn new(min_pwm: u8, start_pwm: u8, max_rpm_diff: i64) -> (r: (Calibrator, u8))
        requires
            max_rpm_diff >= 0,
        ensures
            r.0.phase == CalPhase::InitialStop,
            r.0.min_pwm == min_pwm,
            r.0.start_pwm == start_pwm,
            r.0.window_spec() == Seq::<i64>::empty(),
            r.0.tol_spec() == max_rpm_diff,
            r.0.wf(),
            r.1 == 0,
    {
        (
            Calibrator {
                max_rpm_diff,
                window: RpmWindow::empty(),
                phase: CalPhase::InitialStop,
                min_pwm,
                start_pwm,
            },
            0,
        )
    }

    /// Feed one RPM sample.  While the window has not settled the driver
    /// just keeps sampling; on a settled mean the protocol advances.
    pub fn feed(&mut self, rpm: i64) -> (r: CalAction)
        requires
            old(self).wf(),
            -1_000_000_000_000_000 <= rpm <= 1_000_000_000_000_000,
        ensures
            final(self).wf(),
            final(self).tol_spec() == old(self).tol_spec(),
            ({
                let w2 = window_after(old(self).window_spec(), rpm);
                if window_settled(w2, old(self).tol_spec()) {
                    let stepped = advance_spec(
                        old(self).phase,
                        old(self).min_pwm,
                        old(self).start_pwm,
                        window_mean(w2),
                    );
                    &&& r == stepped.3
                    &&& final(self).phase == stepped.0
                    &&& final(self).min_pwm == stepped.1
                    &&& final(self).start_pwm == stepped.2
                    &&& final(self).window_spec() == Seq::<i64>::empty()
                } else {
                    &&& r == CalAction::Wait
                    &&& final(self).phase == old(self).phase
                    &&& final(self).min_pwm == old(self).min_pwm
                    &&& final(self).start_pwm == old(self).start_pwm
                    &&& final(self).window_spec() == w2
                }
            }),
    {
        let settled = self.window.push(rpm, self.max_rpm_diff);
        proof {
            let w2 = window_after(old(self).window_spec(), rpm);
            lemma_window_after_wf(old(self).window_spec(), rpm);
            if w2.len() == 5 {
                lemma_window_mean_small(w2);
            }
        }
        match settled {
            None => CalAction::Wait,
            Some(mean) => {
                self.window = RpmWindow::empty();
                self.advance(mean)
            },
        }
    }

    /// One protocol step on a settled mean.
    fn advance(&mut self, mean: i64) -> (r: CalAction)
        requires
            old(self).wf(),
        ensures
            final(self).wf(),
            final(self).window_spec() == old(self).window_spec(),
            final(self).tol_spec() == old(self).tol_spec(),
            ({
                let stepped = advance_spec(
                    old(self).phase,
                    old(self).min_pwm,
                    old(self).start_pwm,
                    mean as int,
                );
                &&& r == stepped.3
                &&& final(self).phase == stepped.0
                &&& final(self).min_pwm == stepped.1
                &&& final(self).start_pwm == stepped.2
            }),
    {
        match self.phase {
            CalPhase::InitialStop => {
                if mean != 0 {
                    self.min_pwm = 0;
                    self.phase = CalPhase::SpinUp;
                    CalAction::SetPwm(255)
                } else {
                    self.phase = CalPhase::Search { lo: 0, hi: 255 };
                    CalAction::SetPwm(127)
                }
            },
            CalPhase::Search { lo, hi } => {
                let mid: u8 = (hi - lo) / 2 + lo;
                if mean != 0 {
                    self.start_pwm = mid;
                    self.phase = CalPhase::Restop { lo, hi: mid };
                    CalAction::SetPwm(0)
                } else {
                    if hi - mid <= 1 {
                        self.min_pwm = 0;
                        self.phase = CalPhase::SpinUp;
                        CalAction::SetPwm(255)
                    } else {
                        self.phase = CalPhase::Search { lo: mid, hi };
                        CalAction::SetPwm((hi - mid) / 2 + mid)
                    }
                }
            },
            CalPhase::Restop { lo, hi } => {
                if hi - lo <= 1 {
                    self.min_pwm = 0;
                    self.phase = CalPhase::SpinUp;
                    CalAction::SetPwm(255)
                } else {
                    self.phase = CalPhase::Search { lo, hi };
                    CalAction::SetPwm((hi - lo) / 2 + lo)
                }
            },
            CalPhase::SpinUp => {
                let d0: u8 = if self.start_pwm > 253 {
                    255
                } else {
                    self.start_pwm + 2
                };
                self.phase = CalPhase::Descend { pwm: d0 };
                CalAction::SetPwm(d0)
            },
            CalPhase::Descend { pwm } => {
                if mean == 0 {
                    self.phase = CalPhase::Finished;
                    CalAction::Done(self.min_pwm, self.start_pwm)
                } else if pwm == 0 {
                    self.min_pwm = 0;
                    self.phase = CalPhase::Finished;
                    CalAction::Done(0, self.start_pwm)
                } else {
                    self.min_pwm = pwm;
                    self.phase = CalPhase::Descend { pwm: pwm - 1 };
                    CalAction::SetPwm(pwm - 1)
                }
            },
            CalPhase::Finished => CalAction::Done(self.min_pwm, self.start_pwm),
        }
    }
}

/// How an ideal fan responds to a PWM write: it stops below its minimum
/// PWM, starts at or above its start PWM, and otherwise keeps turning or
/// not as it was.
pub open spec fn model_spin_after(spinning: bool, pwm: u8, m: u8, s: u8) -> bool {
    if pwm < m {
        false
    } else if pwm >= s {
        true
    } else {
        spinning
    }
}

/// The invariant tying the calibration machine to an ideal fan whose
/// true minimum PWM is `m` and true start PWM is `s`: `pwm` is the byte
/// most recently written and `spinning` the fan's present state.  A fan
/// with a minimum of zero never stops once it turns, so its mode tracks
/// less and concludes less: the machine then always reports zero as the
/// minimum.
pub open spec fn cal_model_inv(
    phase: CalPhase,
    min_pwm: u8,
    start_pwm: u8,
    spinning: bool,
    pwm: u8,
    m: u8,
    s: u8,
) -> bool {
    &&& m <= s
    &&& s <= 254
    &&& if m >= 1 {
        match phase {
            CalPhase::InitialStop => pwm == 0 && !spinning,
            CalPhase::Search { lo, hi } => {
                &&& lo + 2 <= hi <= 255
                &&& lo < s <= hi
                &&& pwm == search_mid(lo, hi)
                &&& spinning == (pwm >= s)
                &&& (hi < 255 ==> start_pwm == hi)
            },
            CalPhase::Restop { lo, hi } => {
                &&& lo < hi < 255
                &&& lo < s <= hi
                &&& pwm == 0
                &&& !spinning
                &&& start_pwm == hi
            },
            CalPhase::SpinUp => pwm == 255 && spinning && start_pwm == s && min_pwm == 0,
            CalPhase::Descend { pwm: p } => {
                &&& pwm == p
                &&& spinning == (p >= m)
                &&& start_pwm == s
                &&& p >= m - 1
                &&& ((min_pwm == 0 && p == descend_start(s)) || (min_pwm == p + 1 && m <= p
                    + 1))
            },
            CalPhase::Finished => min_pwm == m && start_pwm == s,
        }
    } else {
        match phase {
            CalPhase::InitialStop => pwm == 0,
            CalPhase::Search { lo, hi } => lo + 2 <= hi <= 255 && pwm == search_mid(lo, hi),
            CalPhase::Restop { lo, hi } => lo < hi && pwm == 0,
            CalPhase::SpinUp => pwm == 255 && spinning && min_pwm == 0,
            CalPhase::Descend { pwm: p } => pwm == p && spinning,
            CalPhase::Finished => min_pwm == 0,
        }
    }
}

/// Calibration begins against the fan as PWM 0 leaves it: after the
/// initial write the model invariant holds, whatever the machine's
/// starting parameters and whatever the fan was doing.
pub proof fn lemma_calibration_init(min0: u8, start0: u8, spinning0: bool, m: u8, s: u8)
    requires
        m <= s,
        s <= 254,
    ensures
        cal_model_inv(
            CalPhase::InitialStop,
            min0,
            start0,
            model_spin_after(spinning0, 0, m, s),
            0,
            m,
            s,
        ),
{
}

/// The calibration law: on an ideal fan the model invariant is preserved
/// by every settled measurement, and when the protocol finishes the
/// reported minimum never exceeds the reported start value; for a fan
/// that can stop, the result is exactly the fan's minimum and start PWM.
pub proof fn lemma_calibration_step(
    phase: CalPhase,
    min_pwm: u8,
    start_pwm: u8,
    spinning: bool,
    pwm: u8,
    m: u8,
    s: u8,
    mean: int,
)
    requires
        cal_model_inv(phase, min_pwm, start_pwm, spinning, pwm, m, s),
        (mean == 0) <==> !spinning,
    ensures
        ({
            let st = advance_spec(phase, min_pwm, start_pwm, mean);
            match st.3 {
                CalAction::Wait => false,
                CalAction::SetPwm(q) => cal_model_inv(
                    st.0,
                    st.1,
                    st.2,
                    model_spin_after(spinning, q, m, s),
                    q,
                    m,
                    s,
                ),
                CalAction::Done(mn, stt) => {
                    &&& mn <= stt
                    &&& (m >= 1 ==> mn == m && stt == s)
                    &&& (m == 0 ==> mn == 0)
                },
            }
        }),
{
    match phase {
        CalPhase::InitialStop => {
        },
        CalPhase::Search { lo, hi } => {
            lemma_search_mid_between(lo, hi);
        },
        CalPhase::Restop { lo, hi } => {
            if hi - lo > 1 {
                lemma_search_mid_between(lo, hi);
            }
        },
        CalPhase::SpinUp => {
        },
        CalPhase::Descend { pwm: p } => {
        },
        CalPhase::Finished => {
        },
    }
}

/// The binary-search midpoint lies strictly between its bounds.
proof fn lemma_search_mid_between(lo: u8, hi: u8)
    requires
        lo + 2 <= hi <= 255,
    ensures
        lo < search_mid(lo, hi) < hi,
{
    let d = hi - lo;
    assert(d >= 2);
    assert(1 <= d / 2 <= d - 1) by {
        vstd::arithmetic::div_mod::lemma_fundamental_div_mod(d, 2);
        vstd::arithmetic::div_mod::lemma_div_pos_is_pos(d, 2);
    };
}

} // verus!
