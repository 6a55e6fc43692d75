//! Telemetry and fan control for ThinkPad laptops: fan-speed values, the
//! control-file protocol of `thinkpad_acpi`, and temperatures read from the
//! JSON output of `sensors -j`.

pub mod control;
pub mod error;
pub mod fanspeed;
pub mod sensors;
pub mod temperature;
pub mod text;

pub use error::{Error, ErrorKind};
pub use fanspeed::FanSpeed;
pub use temperature::{CoreTemperature, Temperatures};
