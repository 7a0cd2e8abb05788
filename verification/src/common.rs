//! Tagged sensor values and the capabilities shared by all graph nodes.
//!
//! A `SensorValue` is a scalar together with its kind and a scale factor.
//! Scale factors are kept in thousandths, so the canonical temperature
//! value stores millidegrees Celsius with a factor of 1 (scaled value =
//! degrees), while percentages and RPM store their unit value with a
//! factor of 1000 (scaled value = raw value).  The scaled value, in
//! thousandths of a unit, is `raw * factor_milli`; the ordering of sensor
//! values compares exactly those products.

use vstd::prelude::*;

use crate::num::div_trunc;

verus! {

use vstd::std_specs::cmp::PartialOrdSpec;

#[derive(Clone, Copy, Debug, PartialEq, Eq, Structural)]
#[allow(non_camel_case_types)]
pub enum SensorType {
    TEMPERATURE,
    PERCENTAGE,
    RPM,
}

/// A tagged scalar: kind, scale factor in thousandths, raw value.
/// Values are replaced, never mutated, after construction.
#[derive(Clone, Copy, Debug, PartialEq, Eq, Structural)]
pub struct SensorValue {
    kind: SensorType,
    factor_milli: i64,
    raw: i64,
}

impl SensorValue {
    /// The kind tag.
    pub closed spec fn kind_spec(self) -> SensorType {
        self.kind
    }

    /// The raw value.
    pub closed spec fn raw_spec(self) -> int {
        self.raw as int
    }

    /// The scale factor, in thousandths.
    pub closed spec fn factor_spec(self) -> int {
        self.factor_milli as int
    }

    /// The scaled value in thousandths of a unit: `raw * factor`.
    pub open spec fn scaled_milli(self) -> int {
        self.raw_spec() * self.factor_spec()
    }

    /// The scaled value truncated to whole units (degrees, percent, RPM).
    pub open spec fn scaled_unit(self) -> int {
        div_trunc(self.scaled_milli(), 1000)
    }

    /// Well-formedness: the factor is a non-negative number of thousandths
    /// no larger than 1000.0, and the scaled value stays well inside `i64`.
    pub open spec fn wf(self) -> bool {
        &&& 0 <= self.factor_spec() <= 1_000_000
        &&& -4_000_000_000_000_000_000 <= self.scaled_milli() <= 4_000_000_000_000_000_000
    }

    pub fn new(kind: SensorType, factor_milli: i64, raw: i64) -> (r: SensorValue)
        requires
            0 <= factor_milli <= 1_000_000,
            -4_000_000_000_000_000_000 <= raw * factor_milli <= 4_000_000_000_000_000_000,
        ensures
            r.kind_spec() == kind,
            r.factor_spec() == factor_milli,
            r.raw_spec() == raw,
            r.wf(),
    {
        SensorValue { kind, factor_milli, raw }
    }

    pub fn as_raw_value(&self) -> (r: i64)
        ensures
            r == self.raw_spec(),
    {
        self.raw
    }

    pub fn as_scaled_value(&self) -> (r: i64)
        requires
            self.wf(),
        ensures
            r == self.scaled_unit(),
    {
        let milli: i64 = self.raw * self.factor_milli;
        crate::num::div_trunc_i64(milli, 1000)
    }

    /// The scaled value in thousandths, without the truncation to whole
    /// units.
    pub fn scaled_millis(&self) -> (r: i64)
        requires
            self.wf(),
        ensures
            r == self.scaled_milli(),
    {
        self.raw * self.factor_milli
    }

    /// The scale factor in thousandths.
    pub fn factor_milli_value(&self) -> (r: i64)
        ensures
            r == self.factor_spec(),
    {
        self.factor_milli
    }

    pub fn get_sensor_type(&self) -> (r: SensorType)
        ensures
            r == self.kind_spec(),
    {
        self.kind
    }
}

/// The components of a sensor value are 64-bit quantities.
pub proof fn lemma_sensor_value_bounds(v: SensorValue)
    ensures
        -0x8000_0000_0000_0000 <= v.raw_spec() <= 0x7fff_ffff_ffff_ffff,
        -0x8000_0000_0000_0000 <= v.factor_spec() <= 0x7fff_ffff_ffff_ffff,
{
}

/// The canonical ordering of sensor values: by scaled value.
pub open spec fn sv_le(a: SensorValue, b: SensorValue) -> bool {
    a.scaled_milli() <= b.scaled_milli()
}

impl PartialOrd for SensorValue {
    fn partial_cmp(&self, other: &Self) -> (r: Option<core::cmp::Ordering>) {
        proof {
            crate::num::lemma_mul_bounds_abs(
                self.raw as int,
                self.factor_milli as int,
                0x8000_0000_0000_0000,
                0x8000_0000_0000_0000,
            );
            crate::num::lemma_mul_bounds_abs(
                other.raw as int,
                other.factor_milli as int,
                0x8000_0000_0000_0000,
                0x8000_0000_0000_0000,
            );
        }
        let a: i128 = (self.raw as i128) * (self.factor_milli as i128);
        let b: i128 = (other.raw as i128) * (other.factor_milli as i128);
        if a < b {
            Some(core::cmp::Ordering::Less)
        } else if a == b {
            Some(core::cmp::Ordering::Equal)
        } else {
            Some(core::cmp::Ordering::Greater)
        }
    }
}

impl vstd::std_specs::cmp::PartialOrdSpecImpl for SensorValue {
    open spec fn obeys_partial_cmp_spec() -> bool {
        true
    }

    open spec fn partial_cmp_spec(&self, other: &Self) -> Option<core::cmp::Ordering> {
        if self.scaled_milli() < other.scaled_milli() {
            Some(core::cmp::Ordering::Less)
        } else if self.scaled_milli() == other.scaled_milli() {
            Some(core::cmp::Ordering::Equal)
        } else {
            Some(core::cmp::Ordering::Greater)
        }
    }
}

/// The ordering law: `a <= b` holds exactly when the scaled value of `a`
/// is at most the scaled value of `b`; the relation is antisymmetric with
/// respect to scaled values and transitive.
pub proof fn lemma_sensor_value_ordering(a: SensorValue, b: SensorValue, c: SensorValue)
    ensures
        (a.partial_cmp_spec(&b) matches Some(o) && (o == core::cmp::Ordering::Less || o
            == core::cmp::Ordering::Equal)) <==> sv_le(a, b),
        sv_le(a, b) && sv_le(b, a) ==> a.scaled_milli() == b.scaled_milli(),
        sv_le(a, b) && sv_le(b, c) ==> sv_le(a, c),
{
}

/// A node whose current value can be read; stateful nodes advance their
/// state in `update_value`.
pub trait ReadableValue {
    fn get_value(&self) -> SensorValue;

    fn update_value(&mut self) {
    }
}

/// A node that refreshes itself from its own input channel.
pub trait UpdatableInput {
    fn update_input(&mut self);
}

/// A node that drives its output from a demand value at a point in time.
pub trait UpdatableOutput {
    fn update_output(&mut self, demand: &SensorValue, now_ms: u64);
}

} // verus!
