//! Temperature sources: one per configured sensor, holding the last
//! reading in millidegrees Celsius.  The scheduler refreshes it each tick
//! with the value read from the hardware; a failed read keeps the
//! previous value, so a transient error never breaks a tick.

use vstd::prelude::*;

use crate::common::{ReadableValue, SensorType, SensorValue};
use crate::config::SensorConfig;
use crate::num::clamp_to;

verus! {

pub struct TempSensor {
    pub id: String,
    /// Last reading in millidegrees Celsius.
    pub last_val: i64,
}

impl TempSensor {
    /// Readings are bounded like the 32-bit millidegree values the kernel
    /// reports.
    pub open spec fn wf(self) -> bool {
        -0x8000_0000 <= self.last_val <= 0x8000_0000
    }

    pub fn new(conf: &SensorConfig) -> (r: TempSensor)
        ensures
            r.id@ == conf.id@,
            r.last_val == 0,
            r.wf(),
    {
        TempSensor { id: conf.id.clone(), last_val: 0 }
    }

    /// Store a fresh reading; keep the previous value when the read
    /// failed.
    pub fn update_input(&mut self, reading: Option<i64>)
        requires
            old(self).wf(),
            match reading {
                Some(v) => -0x8000_0000 <= v <= 0x8000_0000,
                None => true,
            },
        ensures
            final(self).last_val == match reading {
                Some(v) => v,
                None => old(self).last_val,
            },
            final(self).id == old(self).id,
            final(self).wf(),
    {
        match reading {
            Some(v) => self.last_val = v,
            None => {},
        }
    }
}

impl ReadableValue for TempSensor {
    /// The last reading as a temperature value: millidegrees with a
    /// factor of one thousandth, so the scaled value is degrees Celsius.
    fn get_value(&self) -> (r: SensorValue)
        ensures
            r.kind_spec() == SensorType::TEMPERATURE,
            r.factor_spec() == 1,
            r.raw_spec() == clamp_to(self.last_val as int, 4_000_000_000_000_000_000),
            r.wf(),
    {
        let raw: i64 = crate::num::clamp_i64(self.last_val, 4_000_000_000_000_000_000);
        SensorValue::new(SensorType::TEMPERATURE, 1, raw)
    }
}

} // verus!
