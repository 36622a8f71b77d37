//! Telemetry frames for a USB HID CPU display.
//!
//! The crate turns raw host readings (a cumulative energy counter, a CPU
//! busy fraction and a hwmon temperature) into the fixed 64-byte reports the
//! display expects, and drives the handshake-then-poll protocol as a pure
//! state machine. Everything here is verified; devices, files and timers
//! belong to the caller.
//!
//! - [`packet`]: the byte layout, the checksum and the builders of the
//!   handshake and status reports.
//! - [`telemetry`]: the sample a status report carries, and how power,
//!   utilization and temperature are derived from what was measured.
//! - [`sensor`]: the sensor endpoints, the search for the CPU's chip and the
//!   meaning of the endpoints' text.
//! - [`device`]: the choice of the peripheral to open.
//! - [`poll_loop`]: the loop itself, one transition at a time.
//! - [`config`], [`error`]: settings and fatal conditions.
//! - [`ieee754`], [`rounding`], [`text`]: the arithmetic and the text
//!   handling underneath.

pub mod config;
pub mod device;
pub mod error;
pub mod ieee754;
pub mod packet;
pub mod poll_loop;
pub mod rounding;
pub mod sensor;
pub mod telemetry;
pub mod text;

pub use crate::config::MonitorConfig;
pub use crate::error::MonitorError;
pub use crate::packet::{build_init_frames, build_status_frame, DevicePacket};
pub use crate::poll_loop::{Action, Event, LoopState, PollLoop};
pub use crate::sensor::find_cpu_sensor;
pub use crate::telemetry::{MeasurementWindow, TelemetrySample, TemperatureUnit};
