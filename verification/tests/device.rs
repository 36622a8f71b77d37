use cpu_display::config::{MonitorConfig, DEFAULT_POLL_MS};
use cpu_display::device::{select_device, DeviceDescriptor, VENDOR_ID};
use cpu_display::error::{MonitorError, FATAL_EXIT_CODE};
use cpu_display::telemetry::TemperatureUnit;

fn device(vendor_id: u16, product_id: u16) -> DeviceDescriptor {
    DeviceDescriptor { vendor_id, product_id }
}

#[test]
fn vendor_identifier() {
    assert_eq!(VENDOR_ID, 0x3633);
}

#[test]
fn select_device_takes_the_first_match() {
    let devices = vec![
        device(0x046d, 0xc52b),
        device(0x3633, 0x0003),
        device(0x1d6b, 0x0002),
        device(0x3633, 0x0005),
    ];
    assert_eq!(select_device(&devices, VENDOR_ID), Ok(1));
    assert_eq!(select_device(&devices, 0x046d), Ok(0));
    assert_eq!(select_device(&devices, 0x1d6b), Ok(2));
}

#[test]
fn select_device_without_a_match() {
    let devices = vec![device(0x046d, 0xc52b), device(0x1d6b, 0x0002)];
    assert_eq!(select_device(&devices, VENDOR_ID), Err(MonitorError::DeviceNotFound));
    let none: Vec<DeviceDescriptor> = Vec::new();
    assert_eq!(select_device(&none, VENDOR_ID), Err(MonitorError::DeviceNotFound));
}

#[test]
fn select_device_goes_by_the_vendor_alone() {
    let devices = vec![device(0x0003, 0x3633), device(0x3633, 0x0000)];
    assert_eq!(select_device(&devices, VENDOR_ID), Ok(1));
}

#[test]
fn every_error_is_fatal() {
    let errors = [
        MonitorError::DeviceNotFound,
        MonitorError::DeviceOpenFailure,
        MonitorError::SensorNotFound,
        MonitorError::SensorReadFailure,
        MonitorError::TransportWriteFailure,
    ];
    for error in errors {
        assert_eq!(error.exit_code(), 1);
        assert_eq!(error.exit_code(), FATAL_EXIT_CODE);
        assert!(!error.message().is_empty());
    }
}

#[test]
fn error_messages() {
    assert_eq!(MonitorError::DeviceNotFound.message(), "Device not found!");
    assert_eq!(MonitorError::DeviceOpenFailure.message(), "Failed to open HID device");
    assert_eq!(MonitorError::SensorNotFound.message(), "CPU temperature sensor not found!");
    assert_eq!(MonitorError::SensorReadFailure.message(), "Sensor data not found!");
    assert_eq!(MonitorError::TransportWriteFailure.message(), "Failed to write data");
}

#[test]
fn default_config() {
    let config = MonitorConfig::default();
    assert_eq!(config.unit, TemperatureUnit::Celsius);
    assert_eq!(config.poll_ms, 750);
    assert_eq!(DEFAULT_POLL_MS, 750);
}

#[test]
fn config_from_switches() {
    assert_eq!(
        MonitorConfig::new(true, 1000),
        MonitorConfig { unit: TemperatureUnit::Fahrenheit, poll_ms: 1000 }
    );
    assert_eq!(MonitorConfig::new(false, 750), MonitorConfig::default());
}
