//! Fan-control core: sensor values, transfer-function curves, fan output
//! logic, calibration, configuration validation and the tick scheduler.

pub mod common;
pub mod config;
pub mod curve;
pub mod fan;
pub mod fanhub;
pub mod num;
pub mod temperature;
