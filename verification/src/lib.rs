//! Decision logic of a room temperature and humidity monitor: when to measure,
//! how to read the sensor's frame, how often a report may be posted, and how
//! a line typed on the serial console is assembled.

pub mod time;
pub mod discord;
pub mod schedule;
pub mod sht30;
pub mod measurement;
pub mod serial;
pub mod nvs;
