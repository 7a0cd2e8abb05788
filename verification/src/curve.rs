//! Curve nodes: the transfer functions of the control graph.
//!
//! Each node computes a percentage demand from its inputs.  Nodes refer to
//! their inputs by `NodeRef`: an index into the scheduler's temperature
//! sources or into the earlier-built curves, which keeps the evaluated
//! graph acyclic by construction.
//!
//! All arithmetic is integer arithmetic.  A percentage raw value is kept
//! within `PCT_RAW_LIMIT` so that every produced `SensorValue` stays well
//! formed; inside the physically meaningful range the bound never binds.

use vstd::prelude::*;

use crate::common::{ReadableValue, SensorType, SensorValue};
use crate::config;
use crate::num::{clamp_to, div_trunc};

verus! {

/// Largest percentage raw value a curve emits; `PCT_RAW_LIMIT * 1000`
/// still fits the well-formedness bound of `SensorValue`.
pub const PCT_RAW_LIMIT: i64 = 4_000_000_000_000_000;

/// A reference to another node of the graph: a temperature source, or a
/// curve declared earlier than the referring one.
#[derive(Clone, Copy, Debug, PartialEq, Eq, Structural)]
pub enum NodeRef {
    Source(usize),
    Curve(usize),
}

/// One precomputed segment of a linear curve: the line through
/// `(x0, y0)` and `(x1, y1)`, applying from `x0` up to the start of the
/// next segment (and beyond, for the last segment).
#[derive(Clone, Copy, Debug, PartialEq, Eq, Structural)]
pub struct LinearSegment {
    pub x0: i64,
    pub y0: i64,
    pub x1: i64,
    pub y1: i64,
}

/// The value of one segment's line at `x`, truncated to an integer.
pub open spec fn seg_val(seg: LinearSegment, x: int) -> int {
    seg.y0 + div_trunc((seg.y1 - seg.y0) * (x - seg.x0), seg.x1 - seg.x0)
}

/// The value of a linear curve at `x`: zero below the first breakpoint,
/// otherwise the value of the segment whose start is the greatest
/// breakpoint not above `x`, the last segment extrapolating upward.
pub open spec fn seg_value(segs: Seq<LinearSegment>, x: int) -> int
    decreases segs.len(),
{
    if segs.len() == 0 {
        0
    } else if x < segs[0].x0 {
        0
    } else if segs.len() == 1 || x < segs[0].x1 {
        seg_val(segs[0], x)
    } else {
        seg_value(segs.drop_first(), x)
    }
}

/// Segments are chained breakpoint to breakpoint, strictly ascending,
/// with all coordinates in the configuration range.
pub open spec fn segs_wf(segs: Seq<LinearSegment>) -> bool {
    &&& segs.len() >= 1
    &&& forall|i: int|
        0 <= i < segs.len() ==> {
            &&& -1_000_000 <= (#[trigger] segs[i]).x0 <= 1_000_000
            &&& -1_000_000 <= segs[i].y0 <= 1_000_000
            &&& -1_000_000 <= segs[i].x1 <= 1_000_000
            &&& -1_000_000 <= segs[i].y1 <= 1_000_000
            &&& segs[i].x0 < segs[i].x1
        }
    &&& forall|i: int|
        0 <= i < segs.len() - 1 ==> (#[trigger] segs[i]).x1 == segs[i + 1].x0
}

/// The segments are exactly those between consecutive breakpoints.
pub open spec fn segments_match(segs: Seq<LinearSegment>, steps: Seq<(i64, i64)>) -> bool {
    &&& segs.len() == steps.len() - 1
    &&& forall|i: int|
        0 <= i < segs.len() ==> {
            &&& (#[trigger] segs[i]).x0 == steps[i].0
            &&& segs[i].y0 == steps[i].1
            &&& segs[i].x1 == steps[i + 1].0
            &&& segs[i].y1 == steps[i + 1].1
        }
}

/// All breakpoint coordinates lie in the configuration range.
pub open spec fn steps_in_range(steps: Seq<(i64, i64)>) -> bool {
    forall|i: int|
        0 <= i < steps.len() ==> -1_000_000 <= (#[trigger] steps[i]).0 <= 1_000_000 && -1_000_000
            <= steps[i].1 <= 1_000_000
}

/// A piecewise-linear transfer function from degrees Celsius to percent.
pub struct LinearCurve {
    pub sensor: NodeRef,
    pub functions: Vec<LinearSegment>,
}

impl LinearCurve {
    pub open spec fn wf(self) -> bool {
        segs_wf(self.functions@)
    }

    /// Precompute the segments of the configured breakpoints.
    pub fn new(sensor: NodeRef, conf: &config::LinearCurve) -> (r: LinearCurve)
        requires
            conf.steps@.len() >= 2,
            config::steps_ascending(conf.steps@),
            steps_in_range(conf.steps@),
        ensures
            r.sensor == sensor,
            segments_match(r.functions@, conf.steps@),
            r.wf(),
    {
        let mut functions: Vec<LinearSegment> = Vec::new();
        let mut i: usize = 0;
        while i < conf.steps.len() - 1
            invariant
                conf.steps@.len() >= 2,
                config::steps_ascending(conf.steps@),
                steps_in_range(conf.steps@),
                i <= conf.steps@.len() - 1,
                functions@.len() == i,
                forall|j: int|
                    0 <= j < i ==> {
                        &&& (#[trigger] functions@[j]).x0 == conf.steps@[j].0
                        &&& functions@[j].y0 == conf.steps@[j].1
                        &&& functions@[j].x1 == conf.steps@[j + 1].0
                        &&& functions@[j].y1 == conf.steps@[j + 1].1
                    },
            decreases conf.steps@.len() - i,
        {
            let (x0, y0) = conf.steps[i];
            let (x1, y1) = conf.steps[i + 1];
            functions.push(LinearSegment { x0, y0, x1, y1 });
            i = i + 1;
        }
        LinearCurve { sensor, functions }
    }

    /// Evaluate the curve on the input's scaled value in degrees Celsius.
    pub fn get_value(&self, input: &SensorValue) -> (r: SensorValue)
        requires
            self.wf(),
            input.wf(),
        ensures
            r.kind_spec() == SensorType::PERCENTAGE,
            r.factor_spec() == 1000,
            r.raw_spec() == clamp_to(
                seg_value(self.functions@, input.scaled_unit()),
                PCT_RAW_LIMIT as int,
            ),
            r.wf(),
    {
        let x: i64 = input.as_scaled_value();
        if x < self.functions[0].x0 {
            return SensorValue::new(SensorType::PERCENTAGE, 1000, 0);
        }
        let mut i: usize = 0;
        while i < self.functions.len() - 1 && self.functions[i + 1].x0 <= x
            invariant
                self.wf(),
                i < self.functions@.len(),
                self.functions@[i as int].x0 <= x,
            decreases self.functions@.len() - i,
        {
            i = i + 1;
        }
        let seg = self.functions[i];
        proof {
            lemma_seg_value_at(self.functions@, x as int, i as int);
            crate::num::lemma_mul_bounds_abs(
                (seg.y1 - seg.y0) as int,
                (x - seg.x0) as int,
                2_000_000,
                0x7fff_ffff_ffff_ffff,
            );
            crate::num::lemma_div_trunc_bounds(
                ((seg.y1 - seg.y0) as int) * ((x - seg.x0) as int),
                (seg.x1 - seg.x0) as int,
            );
        }
        let num: i128 = ((seg.y1 - seg.y0) as i128) * ((x - seg.x0) as i128);
        let q: i128 = crate::num::div_trunc_i128(num, (seg.x1 - seg.x0) as i128);
        let y: i128 = (seg.y0 as i128) + q;
        let raw: i64 = crate::num::sat_i128(y, PCT_RAW_LIMIT);
        SensorValue::new(SensorType::PERCENTAGE, 1000, raw)
    }
}

/// The iterative segment selection returns the same segment the
/// recursive definition of `seg_value` uses.
proof fn lemma_seg_value_at(segs: Seq<LinearSegment>, x: int, i: int)
    requires
        segs_wf(segs),
        0 <= i < segs.len(),
        segs[i].x0 <= x,
        i + 1 < segs.len() ==> x < segs[i + 1].x0,
    ensures
        seg_value(segs, x) == seg_val(segs[i], x),
    decreases i,
{
    if i == 0 {
        if segs.len() > 1 {
            assert(segs[0].x1 == segs[1].x0);
        }
    } else {
        let rest = segs.drop_first();
        assert(segs[0].x1 == segs[1].x0);
        assert(x >= segs[i].x0);
        assert forall|j: int| 0 <= j < i implies (#[trigger] segs[j]).x0 <= segs[i].x0 by {
            lemma_segs_ascending(segs, j, i);
        };
        assert(!(x < segs[0].x1));
        assert forall|j: int| 0 <= j < rest.len() implies rest[j] == segs[j + 1] by {};
        lemma_seg_value_at(rest, x, i - 1);
    }
}

/// Segment starts ascend along the chain.
proof fn lemma_segs_ascending(segs: Seq<LinearSegment>, j: int, i: int)
    requires
        segs_wf(segs),
        0 <= j <= i < segs.len(),
    ensures
        segs[j].x0 <= segs[i].x0,
    decreases i - j,
{
    if j < i {
        assert(segs[j].x1 == segs[j + 1].x0);
        lemma_segs_ascending(segs, j + 1, i);
    }
}

/// At every breakpoint a linear curve returns exactly the configured
/// output: the interpolation is a fixed point on the breakpoints.
pub proof fn lemma_linear_breakpoint_exact(
    segs: Seq<LinearSegment>,
    steps: Seq<(i64, i64)>,
    i: int,
)
    requires
        steps.len() >= 2,
        config::steps_ascending(steps),
        steps_in_range(steps),
        segments_match(segs, steps),
        segs_wf(segs),
        0 <= i < steps.len(),
    ensures
        seg_value(segs, steps[i].0 as int) == steps[i].1 as int,
{
    let x = steps[i].0 as int;
    if i < steps.len() - 1 {
        lemma_seg_value_at(segs, x, i);
        assert(seg_val(segs[i], x) == segs[i].y0 + div_trunc(
            (segs[i].y1 - segs[i].y0) * 0,
            segs[i].x1 - segs[i].x0,
        ));
        assert((segs[i].y1 - segs[i].y0) * 0 == 0) by (nonlinear_arith);
        assert(div_trunc(0, segs[i].x1 - segs[i].x0) == 0) by {
            vstd::arithmetic::div_mod::lemma_div_of0(segs[i].x1 - segs[i].x0);
        };
    } else {
        let k = i - 1;
        lemma_seg_value_at(segs, x, k);
        let dy = segs[k].y1 - segs[k].y0;
        let dx = segs[k].x1 - segs[k].x0;
        assert(x - segs[k].x0 == dx);
        assert(dy * dx == dy * dx);
        crate::num::lemma_div_trunc_exact(dy, dx);
        assert(dy * dx == dx * dy) by (nonlinear_arith);
        assert(seg_val(segs[k], x) == segs[k].y0 + dy);
    }
}

/// A constant percentage.
pub struct StaticCurve {
    pub value: i64,
}

impl ReadableValue for StaticCurve {
    fn get_value(&self) -> (r: SensorValue)
        ensures
            r.kind_spec() == SensorType::PERCENTAGE,
            r.factor_spec() == 1000,
            r.raw_spec() == clamp_to(self.value as int, PCT_RAW_LIMIT as int),
            r.wf(),
    {
        let raw: i64 = crate::num::clamp_i64(self.value, PCT_RAW_LIMIT);
        SensorValue::new(SensorType::PERCENTAGE, 1000, raw)
    }
}

/// The greatest scaled value among `vals` (in thousandths); zero when
/// `vals` is empty.
pub open spec fn max_milli(vals: Seq<SensorValue>) -> int
    decreases vals.len(),
{
    if vals.len() == 0 {
        0
    } else if vals.len() == 1 {
        vals[0].scaled_milli()
    } else {
        let rest = max_milli(vals.drop_last());
        if vals.last().scaled_milli() >= rest {
            vals.last().scaled_milli()
        } else {
            rest
        }
    }
}

/// What a maximum curve returns over child values: the scaled value of
/// the greatest child, truncated to units; zero for no children.
pub open spec fn max_value_spec(vals: Seq<SensorValue>) -> int {
    if vals.len() == 0 {
        0
    } else {
        div_trunc(max_milli(vals), 1000)
    }
}

/// The sum of the children's scaled unit values.
pub open spec fn sum_units(vals: Seq<SensorValue>) -> int
    decreases vals.len(),
{
    if vals.len() == 0 {
        0
    } else {
        sum_units(vals.drop_last()) + vals.last().scaled_unit()
    }
}

/// What an average curve returns over child values: the integer mean of
/// the scaled unit values, truncated; zero for no children.
pub open spec fn avg_value_spec(vals: Seq<SensorValue>) -> int {
    if vals.len() == 0 {
        0
    } else {
        div_trunc(sum_units(vals), vals.len() as int)
    }
}

/// All values are well formed.
pub open spec fn vals_wf(vals: Seq<SensorValue>) -> bool {
    forall|i: int| 0 <= i < vals.len() ==> (#[trigger] vals[i]).wf()
}

/// The maximum of the referenced nodes' values, under the canonical
/// (scaled) ordering.
pub struct MaximumCurve {
    pub sensors: Vec<NodeRef>,
}

impl MaximumCurve {
    /// Evaluate over the current values of the referenced children.
    pub fn get_value(&self, values: &Vec<SensorValue>) -> (r: SensorValue)
        requires
            vals_wf(values@),
        ensures
            r.kind_spec() == SensorType::PERCENTAGE,
            r.factor_spec() == 1000,
            r.raw_spec() == max_value_spec(values@),
            r.wf(),
    {
        if values.len() == 0 {
            return SensorValue::new(SensorType::PERCENTAGE, 1000, 0);
        }
        let mut best: i64 = values[0].scaled_millis();
        let mut i: usize = 1;
        proof {
            assert(values@.take(1).drop_last() =~= Seq::<SensorValue>::empty());
            assert(max_milli(values@.take(1)) == values@[0].scaled_milli());
        }
        while i < values.len()
            invariant
                vals_wf(values@),
                1 <= i <= values@.len(),
                best == max_milli(values@.take(i as int)),
                -4_000_000_000_000_000_000 <= best <= 4_000_000_000_000_000_000,
            decreases values@.len() - i,
        {
            let m = values[i].scaled_millis();
            proof {
                assert(values@.take(i + 1 as int).drop_last() =~= values@.take(i as int));
                assert(values@.take(i + 1 as int).last() == values@[i as int]);
            }
            if m > best {
                best = m;
            }
            i = i + 1;
        }
        proof {
            assert(values@.take(values@.len() as int) =~= values@);
            crate::num::lemma_div_trunc_mul_bound(best as int, 1000);
            crate::num::lemma_div_trunc_bounds(best as int, 1000);
        }
        let unit: i64 = crate::num::div_trunc_i64(best, 1000);
        SensorValue::new(SensorType::PERCENTAGE, 1000, unit)
    }
}

/// The integer mean of the referenced nodes' values.
pub struct AverageCurve {
    pub sensors: Vec<NodeRef>,
}

impl AverageCurve {
    /// Evaluate over the current values of the referenced children.
    pub fn get_value(&self, values: &Vec<SensorValue>) -> (r: SensorValue)
        requires
            vals_wf(values@),
        ensures
            r.kind_spec() == SensorType::PERCENTAGE,
            r.factor_spec() == 1000,
            r.raw_spec() == avg_value_spec(values@),
            r.wf(),
    {
        if values.len() == 0 {
            return SensorValue::new(SensorType::PERCENTAGE, 1000, 0);
        }
        let mut sum: i128 = 0;
        let mut i: usize = 0;
        while i < values.len()
            invariant
                vals_wf(values@),
                i <= values@.len(),
                sum == sum_units(values@.take(i as int)),
                -(i as int) * 4_000_000_000_000_000 <= sum <= (i as int) * 4_000_000_000_000_000,
            decreases values@.len() - i,
        {
            let u = values[i].as_scaled_value();
            proof {
                assert(values@.take(i + 1 as int).drop_last() =~= values@.take(i as int));
                assert(values@.take(i + 1 as int).last() == values@[i as int]);
                crate::num::lemma_div_trunc_mul_bound(values@[i as int].scaled_milli(), 1000);
                lemma_unit_bounded(values@[i as int]);
                assert((i + 1 as int) * 4_000_000_000_000_000 == (i as int) * 4_000_000_000_000_000
                    + 4_000_000_000_000_000) by (nonlinear_arith);
            }
            sum = sum + (u as i128);
            i = i + 1;
        }
        proof {
            assert(values@.take(values@.len() as int) =~= values@);
        }
        let n: i128 = values.len() as i128;
        proof {
            crate::num::lemma_div_trunc_bounds(sum as int, n as int);
            lemma_mean_bounded(sum as int, values@.len() as int);
        }
        let mean: i128 = crate::num::div_trunc_i128(sum, n);
        let raw: i64 = mean as i64;
        SensorValue::new(SensorType::PERCENTAGE, 1000, raw)
    }
}

/// A well-formed value's scaled unit value is bounded by the percentage
/// raw limit.
proof fn lemma_unit_bounded(v: SensorValue)
    requires
        v.wf(),
    ensures
        -4_000_000_000_000_000 <= v.scaled_unit() <= 4_000_000_000_000_000,
{
    crate::num::lemma_div_trunc_mul_bound(v.scaled_milli(), 1000);
    crate::num::lemma_div_trunc_bounds(v.scaled_milli(), 1000);
    let q = div_trunc(v.scaled_milli(), 1000);
    if q > 4_000_000_000_000_000 {
        assert(q * 1000 > 4_000_000_000_000_000_000) by (nonlinear_arith)
            requires
                q > 4_000_000_000_000_000,
        ;
    }
    if q < -4_000_000_000_000_000 {
        assert(q * 1000 < -4_000_000_000_000_000_000) by (nonlinear_arith)
            requires
                q < -4_000_000_000_000_000,
        ;
    }
}

/// The truncated mean of a sum of `n` values, each bounded by the
/// percentage raw limit, is itself bounded by that limit.
proof fn lemma_mean_bounded(sum: int, n: int)
    requires
        n >= 1,
        -n * 4_000_000_000_000_000 <= sum <= n * 4_000_000_000_000_000,
    ensures
        -4_000_000_000_000_000 <= div_trunc(sum, n) <= 4_000_000_000_000_000,
{
    crate::num::lemma_div_trunc_mul_bound(sum, n);
    let q = div_trunc(sum, n);
    if q > 4_000_000_000_000_000 {
        assert(q * n > 4_000_000_000_000_000 * n) by (nonlinear_arith)
            requires
                q > 4_000_000_000_000_000,
                n >= 1,
        ;
        assert(4_000_000_000_000_000 * n == n * 4_000_000_000_000_000) by (nonlinear_arith);
        assert(false);
    }
    if q < -4_000_000_000_000_000 {
        assert(q * n < (-4_000_000_000_000_000) * n) by (nonlinear_arith)
            requires
                q < -4_000_000_000_000_000,
                n >= 1,
        ;
        assert((-4_000_000_000_000_000) * n == -(n * 4_000_000_000_000_000)) by (nonlinear_arith);
        assert(false);
    }
}

/// Aggregates over no children return zero, and over one child return the
/// child's scaled unit value; for a canonical percentage child that is
/// the child's own raw value.
pub proof fn lemma_aggregate_laws(v: SensorValue)
    requires
        v.wf(),
    ensures
        max_value_spec(Seq::<SensorValue>::empty()) == 0,
        avg_value_spec(Seq::<SensorValue>::empty()) == 0,
        max_value_spec(seq![v]) == v.scaled_unit(),
        avg_value_spec(seq![v]) == v.scaled_unit(),
        v.factor_spec() == 1000 ==> max_value_spec(seq![v]) == v.raw_spec(),
        v.factor_spec() == 1000 ==> avg_value_spec(seq![v]) == v.raw_spec(),
{
    let s = seq![v];
    assert(s.drop_last() =~= Seq::<SensorValue>::empty());
    assert(s.last() == v);
    assert(sum_units(Seq::<SensorValue>::empty()) == 0);
    assert(max_milli(s) == v.scaled_milli());
    assert(sum_units(s) == v.scaled_unit());
    assert(max_value_spec(s) == div_trunc(v.scaled_milli(), 1000));
    crate::num::lemma_div_trunc_exact(v.scaled_unit(), 1);
    assert(div_trunc(sum_units(s), 1) == v.scaled_unit()) by {
        assert(v.scaled_unit() * 1 == v.scaled_unit()) by (nonlinear_arith);
    };
    if v.factor_spec() == 1000 {
        assert(v.scaled_milli() == v.raw_spec() * 1000);
        crate::num::lemma_div_trunc_exact(v.raw_spec(), 1000);
    }
}

/// The greatest of a sequence of scaled values in thousandths; zero for
/// the empty sequence.
pub open spec fn max_milli_ints(ms: Seq<int>) -> int
    decreases ms.len(),
{
    if ms.len() == 0 {
        0
    } else if ms.len() == 1 {
        ms[0]
    } else {
        let rest = max_milli_ints(ms.drop_last());
        if ms.last() >= rest {
            ms.last()
        } else {
            rest
        }
    }
}

/// The sum of the unit values of a sequence of scaled values in
/// thousandths.
pub open spec fn sum_units_ints(ms: Seq<int>) -> int
    decreases ms.len(),
{
    if ms.len() == 0 {
        0
    } else {
        sum_units_ints(ms.drop_last()) + div_trunc(ms.last(), 1000)
    }
}

/// A maximum over sensor values equals the maximum over their scaled
/// values.
pub proof fn lemma_max_milli_ints(vals: Seq<SensorValue>, ms: Seq<int>)
    requires
        vals.len() == ms.len(),
        forall|i: int| 0 <= i < vals.len() ==> (#[trigger] vals[i]).scaled_milli() == ms[i],
    ensures
        max_milli(vals) == max_milli_ints(ms),
    decreases vals.len(),
{
    if vals.len() <= 1 {
    } else {
        assert forall|i: int|
            0 <= i < vals.drop_last().len() implies (#[trigger] vals.drop_last()[i]).scaled_milli()
            == ms.drop_last()[i] by {
            assert(vals.drop_last()[i] == vals[i]);
            assert(ms.drop_last()[i] == ms[i]);
        };
        lemma_max_milli_ints(vals.drop_last(), ms.drop_last());
        assert(vals.last().scaled_milli() == ms[vals.len() - 1]);
    }
}

/// A sum of unit values over sensor values equals the sum over their
/// scaled values.
pub proof fn lemma_sum_units_ints(vals: Seq<SensorValue>, ms: Seq<int>)
    requires
        vals.len() == ms.len(),
        forall|i: int| 0 <= i < vals.len() ==> (#[trigger] vals[i]).scaled_milli() == ms[i],
    ensures
        sum_units(vals) == sum_units_ints(ms),
    decreases vals.len(),
{
    if vals.len() == 0 {
    } else {
        assert forall|i: int|
            0 <= i < vals.drop_last().len() implies (#[trigger] vals.drop_last()[i]).scaled_milli()
            == ms.drop_last()[i] by {
            assert(vals.drop_last()[i] == vals[i]);
            assert(ms.drop_last()[i] == ms[i]);
        };
        lemma_sum_units_ints(vals.drop_last(), ms.drop_last());
        assert(vals.last().scaled_milli() == ms[vals.len() - 1]);
    }
}

/// State carried by a PID controller between ticks.
#[derive(Clone, Copy, Debug, PartialEq, Eq, Structural)]
pub struct PidState {
    /// The stored integral term, in thousandths of a percent, clamped.
    pub integral_milli: i64,
    /// The previous measurement in thousandths, if any.
    pub prev_m: Option<i64>,
    /// The last emitted percentage.
    pub last_val: i64,
}

/// A PID controller curve.  Gains and target are in thousandths; each
/// term and the total output are clamped to +/-100 percent.  When the raw
/// controller output is negative the emitted demand is its magnitude,
/// otherwise zero: exceeding the target must raise fan speed.
pub struct PidCurve {
    pub sensor: NodeRef,
    pub target: i64,
    pub p: i64,
    pub i: i64,
    pub d: i64,
    pub state: PidState,
}

/// One clamped controller term: `gain * error`, scaled back to
/// thousandths and limited to +/-100000 (one hundred percent).
pub open spec fn pid_term(gain: int, e: int) -> int {
    clamp_to(div_trunc(gain * e, 1000), 100_000)
}

impl PidCurve {
    pub open spec fn wf(self) -> bool {
        &&& -1_000_000 <= self.target <= 1_000_000
        &&& -1_000_000 <= self.p <= 1_000_000
        &&& -1_000_000 <= self.i <= 1_000_000
        &&& -1_000_000 <= self.d <= 1_000_000
        &&& -100_000 <= self.state.integral_milli <= 100_000
        &&& 0 <= self.state.last_val <= 100
        &&& match self.state.prev_m {
            Some(m) => -4_000_000_000_000_000_000 <= m <= 4_000_000_000_000_000_000,
            None => true,
        }
    }

    /// The controller state after one update on measurement `m`
    /// (thousandths of a degree).
    pub open spec fn step_spec(self, m: int) -> PidCurve {
        let e = self.target - m;
        let p_term = pid_term(self.p as int, e);
        let i_new = clamp_to(self.state.integral_milli + div_trunc(self.i * e, 1000), 100_000);
        let d_term = match self.state.prev_m {
            Some(prev) => clamp_to(-div_trunc(self.d * (m - prev), 1000), 100_000),
            None => 0,
        };
        let output = clamp_to(p_term + i_new + d_term, 100_000);
        let last = if output < 0 {
            div_trunc(-output, 1000)
        } else {
            0
        };
        PidCurve {
            state: PidState {
                integral_milli: i_new as i64,
                prev_m: Some(m as i64),
                last_val: last as i64,
            },
            ..self
        }
    }

    pub fn new(sensor: NodeRef, p: i64, i: i64, d: i64, target: i64) -> (r: PidCurve)
        requires
            -1_000_000 <= p <= 1_000_000,
            -1_000_000 <= i <= 1_000_000,
            -1_000_000 <= d <= 1_000_000,
            -1_000_000 <= target <= 1_000_000,
        ensures
            r.sensor == sensor,
            r.p == p,
            r.i == i,
            r.d == d,
            r.target == target,
            r.state == (PidState { integral_milli: 0, prev_m: None::<i64>, last_val: 0 }),
            r.wf(),
    {
        PidCurve {
            sensor,
            target,
            p,
            i,
            d,
            state: PidState { integral_milli: 0, prev_m: None, last_val: 0 },
        }
    }

    /// Change the setpoint at runtime.
    pub fn set_target(&mut self, target: i64)
        requires
            -1_000_000 <= target <= 1_000_000,
        ensures
            *final(self) == (PidCurve { target, ..*old(self) }),
    {
        self.target = target;
    }

    /// Advance the controller on the input's scaled value in thousandths
    /// of a degree.
    pub fn update_value(&mut self, input: &SensorValue)
        requires
            old(self).wf(),
            input.wf(),
        ensures
            *final(self) == old(self).step_spec(input.scaled_milli()),
            final(self).wf(),
    {
        let m: i64 = input.scaled_millis();
        let e: i64 = self.target - m;
        proof {
            crate::num::lemma_mul_bounds_abs(
                self.p as int,
                e as int,
                1_000_000,
                4_000_000_002_000_000_000,
            );
            crate::num::lemma_mul_bounds_abs(
                self.i as int,
                e as int,
                1_000_000,
                4_000_000_002_000_000_000,
            );
            crate::num::lemma_div_trunc_bounds((self.p as int) * (e as int), 1000);
            crate::num::lemma_div_trunc_bounds((self.i as int) * (e as int), 1000);
        }
        let p_num: i128 = (self.p as i128) * (e as i128);
        let p_term: i64 = crate::num::sat_i128(crate::num::div_trunc_i128(p_num, 1000), 100_000);
        let i_num: i128 = (self.i as i128) * (e as i128);
        let i_step: i128 = crate::num::div_trunc_i128(i_num, 1000);
        let i_new: i64 = crate::num::sat_i128((self.state.integral_milli as i128) + i_step, 100_000);
        let d_term: i64 = match self.state.prev_m {
            Some(prev) => {
                proof {
                    crate::num::lemma_mul_bounds_abs(
                        self.d as int,
                        m as int - prev as int,
                        1_000_000,
                        8_000_000_000_000_000_000,
                    );
                    crate::num::lemma_div_trunc_bounds(
                        (self.d as int) * (m as int - prev as int),
                        1000,
                    );
                }
                let d_num: i128 = (self.d as i128) * ((m as i128) - (prev as i128));
                crate::num::sat_i128(-crate::num::div_trunc_i128(d_num, 1000), 100_000)
            },
            None => 0,
        };
        let output: i64 = crate::num::clamp_i64(p_term + i_new + d_term, 100_000);
        let last: i64 = if output < 0 {
            crate::num::div_trunc_i64(-output, 1000)
        } else {
            0
        };
        proof {
            crate::num::lemma_div_trunc_bounds(-(output as int), 1000);
            if output < 0 {
                crate::num::lemma_div_trunc_mul_bound(-(output as int), 1000);
                lemma_last_small(-(output as int));
            }
        }
        self.state = PidState { integral_milli: i_new, prev_m: Some(m), last_val: last };
    }
}

/// The emitted percentage of a clamped controller output never exceeds
/// one hundred.
proof fn lemma_last_small(mag: int)
    requires
        0 < mag <= 100_000,
    ensures
        div_trunc(mag, 1000) <= 100,
{
    crate::num::lemma_div_trunc_mul_bound(mag, 1000);
    let q = div_trunc(mag, 1000);
    if q > 100 {
        assert(q * 1000 > 100_000) by (nonlinear_arith)
            requires
                q > 100,
        ;
    }
}

impl ReadableValue for PidCurve {
    /// The last emitted demand.
    fn get_value(&self) -> (r: SensorValue)
        ensures
            r.kind_spec() == SensorType::PERCENTAGE,
            r.factor_spec() == 1000,
            r.raw_spec() == clamp_to(self.state.last_val as int, PCT_RAW_LIMIT as int),
            r.wf(),
    {
        let raw: i64 = crate::num::clamp_i64(self.state.last_val, PCT_RAW_LIMIT);
        SensorValue::new(SensorType::PERCENTAGE, 1000, raw)
    }
}

} // verus!
