//! What the caller chooses before the loop starts.

use vstd::prelude::*;
use crate::telemetry::TemperatureUnit;

verus! {

/// The poll interval where none is chosen, in milliseconds.
pub const DEFAULT_POLL_MS: u64 = 750;

/// The settings of one run.
#[derive(Clone, Copy, Debug, PartialEq, Eq, Structural)]
pub struct MonitorConfig {
    /// The unit the temperature is shown in.
    pub unit: TemperatureUnit,
    /// The length of one measurement window, in milliseconds.
    pub poll_ms: u64,
}

impl MonitorConfig {
    /// The settings for a unit switch and a poll interval as they come from the
    /// command line.
    pub fn new(fahrenheit: bool, poll_ms: u64) -> (config: MonitorConfig)
        ensures
            config.poll_ms == poll_ms,
            config.unit == if fahrenheit {
                TemperatureUnit::Fahrenheit
            } else {
                TemperatureUnit::Celsius
            },
    {
        MonitorConfig {
            unit: if fahrenheit {
                TemperatureUnit::Fahrenheit
            } else {
                TemperatureUnit::Celsius
            },
            poll_ms,
        }
    }
}

impl Default for MonitorConfig {
    /// Celsius, and a window of 750 milliseconds.
    fn default() -> (config: MonitorConfig)
        ensures
            config.unit == TemperatureUnit::Celsius,
            config.poll_ms == DEFAULT_POLL_MS,
    {
        MonitorConfig { unit: TemperatureUnit::Celsius, poll_ms: DEFAULT_POLL_MS }
    }
}

} // verus!
