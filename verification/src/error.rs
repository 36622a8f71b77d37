//! The fatal conditions of the monitor.

use vstd::prelude::*;

verus! {

/// Why the monitor stopped. Every kind is fatal: nothing is retried.
#[derive(Clone, Copy, Debug, PartialEq, Eq, Structural)]
pub enum MonitorError {
    /// No attached peripheral carries the expected vendor identifier.
    DeviceNotFound,
    /// The matching peripheral exists but could not be opened.
    DeviceOpenFailure,
    /// No sensor chip with a recognised CPU temperature name was found.
    SensorNotFound,
    /// A sensor endpoint was unreadable or its text was not a number.
    SensorReadFailure,
    /// A report could not be written to the opened peripheral.
    TransportWriteFailure,
}

/// The status the process ends with after any fatal condition.
pub const FATAL_EXIT_CODE: u8 = 1;

impl MonitorError {
    /// What the operator is told.
    pub open spec fn message_spec(self) -> Seq<char> {
        match self {
            MonitorError::DeviceNotFound => "Device not found!"@,
            MonitorError::DeviceOpenFailure => "Failed to open HID device"@,
            MonitorError::SensorNotFound => "CPU temperature sensor not found!"@,
            MonitorError::SensorReadFailure => "Sensor data not found!"@,
            MonitorError::TransportWriteFailure => "Failed to write data"@,
        }
    }

    /// The message for the operator.
    pub fn message(&self) -> (text: &'static str)
        ensures
            text@ == self.message_spec(),
    {
        match self {
            MonitorError::DeviceNotFound => "Device not found!",
            MonitorError::DeviceOpenFailure => "Failed to open HID device",
            MonitorError::SensorNotFound => "CPU temperature sensor not found!",
            MonitorError::SensorReadFailure => "Sensor data not found!",
            MonitorError::TransportWriteFailure => "Failed to write data",
        }
    }

    /// The process exit status for this error: always [`FATAL_EXIT_CODE`].
    pub fn exit_code(&self) -> (code: u8)
        ensures
            code == FATAL_EXIT_CODE,
    {
        FATAL_EXIT_CODE
    }
}

} // verus!
