//! Temperature readings of one-wire sensors, rendered as an XML report.
mod clock;
mod device;
mod http;
mod report;
mod sensor;
mod text;

pub use clock::{format_timestamp, Clock, FixedClock, RealClock, Timestamp};
pub use device::{device_path, parse_device_file, parse_ids, ParseFailure, SensorError};
pub use http::{asks_for_report, not_found, report_reply, respond, uses_stand_in, Reply};
pub use report::{
    format_celsius, format_fahrenheit, get_temps, read_all, render_report, Reading,
};
pub use sensor::{FakeSensor, Sensor};
