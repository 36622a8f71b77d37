use cpu_display::packet::{
    build_init_frames, build_status_frame, checksum, DevicePacket, PACKET_LEN, REPORT_HEADER,
    TERMINATOR,
};
use cpu_display::telemetry::{TelemetrySample, TemperatureUnit};

fn reference_checksum(bytes: &[u8; 64]) -> u8 {
    let total: u32 = bytes[1..=15].iter().map(|&b| b as u32).sum();
    (total % 256) as u8
}

fn sample(utilization: u8, power: u16, temperature: u8, unit: TemperatureUnit) -> TelemetrySample {
    TelemetrySample {
        utilization_percent: utilization,
        power_draw_watts: power,
        temperature_value: temperature,
        unit,
    }
}

#[test]
fn status_frame_has_length_header_terminator_and_checksum() {
    let units = [TemperatureUnit::Celsius, TemperatureUnit::Fahrenheit];
    for &unit in units.iter() {
        for utilization in [0u8, 1, 43, 75, 100, 101, 255] {
            for power in [0u16, 1, 2, 5, 255, 256, 4660, 65535] {
                for temperature in 0u8..=255 {
                    let packet = build_status_frame(&sample(utilization, power, temperature, unit));
                    let bytes = packet.as_bytes();
                    assert_eq!(bytes.len(), 64);
                    assert_eq!(bytes.len(), PACKET_LEN);
                    assert_eq!(bytes[0], 16);
                    assert_eq!(bytes[0], REPORT_HEADER);
                    assert_eq!(bytes[17], 22);
                    assert_eq!(bytes[17], TERMINATOR);
                    assert_eq!(bytes[16], reference_checksum(bytes));
                    assert!(packet.checksum_is_consistent());
                    assert!(bytes[18..].iter().all(|&b| b == 0));
                }
            }
        }
    }
}

#[test]
fn status_frame_field_layout() {
    let packet = build_status_frame(&sample(43, 0x1234, 113, TemperatureUnit::Fahrenheit));
    let bytes = packet.as_bytes();
    assert_eq!(&bytes[0..8], &[16, 104, 1, 1, 11, 1, 2, 5]);
    assert_eq!(&bytes[8..10], &[0x12, 0x34]);
    assert_eq!(bytes[10], 1);
    assert_eq!(&bytes[11..15], &113.0f32.to_be_bytes());
    assert_eq!(bytes[15], 43);
    // 104+1+1+11+1+2+5 + 0x12+0x34 + 1 + 0x42+0xe2+0+0 + 43 = 531
    assert_eq!(bytes[16], (531 % 256) as u8);
    assert_eq!(bytes[17], 22);
}

#[test]
fn status_frame_temperature_is_the_float_of_the_same_value() {
    for temperature in 0u8..=255 {
        let packet = build_status_frame(&sample(0, 0, temperature, TemperatureUnit::Celsius));
        let expected = (temperature as f32).to_be_bytes();
        assert_eq!(&packet.as_bytes()[11..15], &expected);
    }
}

#[test]
fn status_frame_power_is_big_endian() {
    for power in [0u16, 1, 2, 5, 255, 256, 513, 65535] {
        let packet = build_status_frame(&sample(0, power, 0, TemperatureUnit::Celsius));
        assert_eq!(&packet.as_bytes()[8..10], &power.to_be_bytes());
    }
}

#[test]
fn status_frame_unit_flag() {
    let celsius = build_status_frame(&sample(1, 1, 1, TemperatureUnit::Celsius));
    let fahrenheit = build_status_frame(&sample(1, 1, 1, TemperatureUnit::Fahrenheit));
    assert_eq!(celsius.as_bytes()[10], 0);
    assert_eq!(fahrenheit.as_bytes()[10], 1);
}

#[test]
fn status_frame_does_not_clamp_utilization() {
    let packet = build_status_frame(&sample(200, 0, 0, TemperatureUnit::Celsius));
    assert_eq!(packet.as_bytes()[15], 200);
}

#[test]
fn init_frames_are_fixed() {
    let (first, second) = build_init_frames();
    let mut expected_first = [0u8; 64];
    expected_first[..9].copy_from_slice(&[16, 104, 1, 1, 2, 3, 1, 112, 22]);
    expected_first[17] = 22;
    let mut expected_second = [0u8; 64];
    expected_second[..9].copy_from_slice(&[16, 104, 1, 1, 2, 2, 1, 111, 22]);
    expected_second[17] = 22;
    assert_eq!(first.as_bytes(), &expected_first);
    assert_eq!(second.as_bytes(), &expected_second);
}

#[test]
fn init_frames_are_deterministic() {
    let (first_a, second_a) = build_init_frames();
    let (first_b, second_b) = build_init_frames();
    assert_eq!(first_a.as_bytes(), first_b.as_bytes());
    assert_eq!(second_a.as_bytes(), second_b.as_bytes());
    assert_eq!(first_a, first_b);
    assert_eq!(second_a, second_b);
    assert_ne!(first_a, second_a);
}

#[test]
fn init_frames_share_header_and_terminator() {
    let (first, second) = build_init_frames();
    for packet in [first, second] {
        let bytes = packet.as_bytes();
        assert_eq!(bytes.len(), 64);
        assert_eq!(&bytes[0..4], &[16, 104, 1, 1]);
        assert_eq!(bytes[4], 2);
        assert_eq!(bytes[6], 1);
        assert_eq!(bytes[8], 22);
        assert_eq!(bytes[17], 22);
        assert!(bytes[9..17].iter().all(|&b| b == 0));
        assert!(bytes[18..].iter().all(|&b| b == 0));
    }
}

#[test]
fn checksum_detects_any_single_byte_change() {
    let packet = build_status_frame(&sample(75, 5, 52, TemperatureUnit::Celsius));
    assert!(packet.checksum_is_consistent());
    for offset in 1..=15usize {
        for value in 0u8..=255 {
            if value == packet.bytes[offset] {
                continue;
            }
            let mut changed = packet;
            changed.bytes[offset] = value;
            assert!(!changed.checksum_is_consistent());
            assert_ne!(checksum(&changed.bytes), packet.bytes[16]);
        }
    }
}

#[test]
fn checksum_ignores_bytes_outside_its_range() {
    let packet = build_status_frame(&sample(75, 5, 52, TemperatureUnit::Celsius));
    for offset in [0usize, 17, 18, 40, 63] {
        let mut changed = packet;
        changed.bytes[offset] = changed.bytes[offset].wrapping_add(1);
        assert_eq!(checksum(&changed.bytes), checksum(&packet.bytes));
    }
}

#[test]
fn checksum_wraps_modulo_256() {
    let mut bytes = [0u8; 64];
    for b in bytes.iter_mut().take(16).skip(1) {
        *b = 255;
    }
    // 15 * 255 = 3825 = 14 * 256 + 241
    assert_eq!(checksum(&bytes), 241);
    let packet = DevicePacket { bytes };
    assert!(!packet.checksum_is_consistent());
}

#[test]
fn meaningful_bytes_are_the_first_eighteen() {
    let packet = build_status_frame(&sample(75, 5, 52, TemperatureUnit::Celsius));
    let meaningful = packet.meaningful();
    assert_eq!(meaningful.len(), 18);
    assert_eq!(&meaningful[..], &packet.as_bytes()[0..18]);
}

#[test]
fn end_to_end_status_bytes() {
    // 5 W, Celsius, 52 degrees, 75 percent.
    let packet = build_status_frame(&sample(75, 5, 52, TemperatureUnit::Celsius));
    let bytes = packet.as_bytes();
    assert_eq!(&bytes[8..10], &[0x00, 0x05]);
    assert_eq!(bytes[10], 0);
    assert_eq!(&bytes[11..15], &[0x42, 0x50, 0x00, 0x00]);
    assert_eq!(&bytes[11..15], &52.0f32.to_be_bytes());
    assert_eq!(bytes[15], 75);
    // 125 + 5 + 0 + 0x42 + 0x50 + 75 = 351
    assert_eq!(bytes[16], 95);
    assert_eq!(bytes[17], 22);
    assert_eq!(&bytes[8..18], &[0x00, 0x05, 0, 0x42, 0x50, 0, 0, 75, 95, 22]);
}
