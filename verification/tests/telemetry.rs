use cpu_display::error::MonitorError;
use cpu_display::ieee754::{encode_binary32, round_magnitude_times};
use cpu_display::packet::build_status_frame;
use cpu_display::telemetry::{
    display_temperature, power_draw_watts, utilization_percent, MeasurementWindow,
    TelemetrySample, TemperatureUnit,
};

fn float_temperature(raw: u32, fahrenheit: bool) -> u8 {
    let mut value = raw;
    if fahrenheit {
        value = value * 9 / 5 + 32000;
    }
    (value as f32 / 1000 as f32).round() as u8
}

fn float_power(delta: u64, interval_ms: u64) -> u16 {
    let watts = delta as f64 / (interval_ms * 1000) as f64;
    watts.round() as u16
}

fn float_utilization(fraction: f64) -> u8 {
    (fraction * 100.0).round() as u8
}

#[test]
fn fahrenheit_display_of_45000_is_113() {
    assert_eq!(display_temperature(45000, TemperatureUnit::Fahrenheit), 113);
}

#[test]
fn celsius_display_rounds_to_nearest() {
    assert_eq!(display_temperature(0, TemperatureUnit::Celsius), 0);
    assert_eq!(display_temperature(499, TemperatureUnit::Celsius), 0);
    assert_eq!(display_temperature(500, TemperatureUnit::Celsius), 1);
    assert_eq!(display_temperature(45000, TemperatureUnit::Celsius), 45);
    assert_eq!(display_temperature(45499, TemperatureUnit::Celsius), 45);
    assert_eq!(display_temperature(45500, TemperatureUnit::Celsius), 46);
    assert_eq!(display_temperature(52000, TemperatureUnit::Celsius), 52);
}

#[test]
fn fahrenheit_display_follows_the_formula() {
    for c in (0u32..=130_000).step_by(7) {
        let millidegrees = c as u64 * 9 / 5 + 32000;
        let expected = ((millidegrees + 500) / 1000).min(255) as u8;
        assert_eq!(display_temperature(c, TemperatureUnit::Fahrenheit), expected);
    }
    assert_eq!(display_temperature(0, TemperatureUnit::Fahrenheit), 32);
    assert_eq!(display_temperature(100_000, TemperatureUnit::Fahrenheit), 212);
    assert_eq!(display_temperature(37_000, TemperatureUnit::Fahrenheit), 99);
}

#[test]
fn display_temperature_agrees_with_float_arithmetic() {
    for raw in 0u32..=300_000 {
        assert_eq!(display_temperature(raw, TemperatureUnit::Celsius), float_temperature(raw, false));
        assert_eq!(
            display_temperature(raw, TemperatureUnit::Fahrenheit),
            float_temperature(raw, true)
        );
    }
}

#[test]
fn display_temperature_saturates_at_255() {
    assert_eq!(display_temperature(255_499, TemperatureUnit::Celsius), 255);
    assert_eq!(display_temperature(255_500, TemperatureUnit::Celsius), 255);
    assert_eq!(display_temperature(1_000_000, TemperatureUnit::Celsius), 255);
    assert_eq!(display_temperature(u32::MAX, TemperatureUnit::Celsius), 255);
    assert_eq!(display_temperature(u32::MAX, TemperatureUnit::Fahrenheit), 255);
    assert_eq!(display_temperature(124_000, TemperatureUnit::Fahrenheit), 255);
}

#[test]
fn power_draw_of_one_and_a_half_joules_in_750_ms_is_two_watts() {
    let watts = power_draw_watts(2_500_000 - 1_000_000, 750);
    assert_eq!(watts, 2);
    assert_eq!(watts.to_be_bytes(), [0x00, 0x02]);
    let window = MeasurementWindow {
        energy_start_uj: 1_000_000,
        energy_end_uj: 2_500_000,
        interval_ms: 750,
        non_idle_bits: 0.0f64.to_bits(),
    };
    assert_eq!(window.power_draw_watts(), Some(2));
    let sample = TelemetrySample::from_window(&window, 0, TemperatureUnit::Celsius).unwrap();
    let packet = build_status_frame(&sample);
    assert_eq!(&packet.as_bytes()[8..10], &[0x00, 0x02]);
}

#[test]
fn power_draw_rounds_to_nearest_watt() {
    assert_eq!(power_draw_watts(0, 1000), 0);
    assert_eq!(power_draw_watts(499_999, 1000), 0);
    assert_eq!(power_draw_watts(500_000, 1000), 1);
    assert_eq!(power_draw_watts(1_499_999, 1000), 1);
    assert_eq!(power_draw_watts(1_500_000, 1000), 2);
    assert_eq!(power_draw_watts(5_000_000, 1000), 5);
    assert_eq!(power_draw_watts(48_750_000, 750), 65);
}

#[test]
fn power_draw_agrees_with_float_arithmetic() {
    for interval in [1u64, 10, 250, 750, 1000, 1234, 60_000] {
        for delta in (0u64..200_000_000).step_by(99_991) {
            assert_eq!(power_draw_watts(delta, interval), float_power(delta, interval));
        }
    }
}

#[test]
fn power_draw_saturates_at_sixteen_bits() {
    assert_eq!(power_draw_watts(65_535_000_000, 1000), 65535);
    assert_eq!(power_draw_watts(65_536_000_000, 1000), 65535);
    assert_eq!(power_draw_watts(u64::MAX, 1), 65535);
    assert_eq!(power_draw_watts(u64::MAX, u64::MAX), 0);
    assert_eq!(power_draw_watts(u64::MAX, u64::MAX / 1000), 1);
}

#[test]
fn power_draw_over_an_empty_window() {
    assert_eq!(power_draw_watts(0, 0), 0);
    assert_eq!(power_draw_watts(1, 0), 65535);
    assert_eq!(power_draw_watts(0, 0), (0.0f64 / 0.0f64).round() as u16);
    assert_eq!(power_draw_watts(1, 0), (1.0f64 / 0.0f64).round() as u16);
}

#[test]
fn utilization_of_0_4321_is_43() {
    assert_eq!(utilization_percent(0.4321f64.to_bits()), 43);
}

#[test]
fn utilization_rounds_to_nearest_percent() {
    assert_eq!(utilization_percent(0.0f64.to_bits()), 0);
    assert_eq!(utilization_percent(0.004f64.to_bits()), 0);
    assert_eq!(utilization_percent(0.006f64.to_bits()), 1);
    assert_eq!(utilization_percent(0.125f64.to_bits()), 13);
    assert_eq!(utilization_percent(0.375f64.to_bits()), 38);
    assert_eq!(utilization_percent(0.5f64.to_bits()), 50);
    assert_eq!(utilization_percent(0.75f64.to_bits()), 75);
    assert_eq!(utilization_percent(0.994f64.to_bits()), 99);
    assert_eq!(utilization_percent(0.996f64.to_bits()), 100);
    assert_eq!(utilization_percent(1.0f64.to_bits()), 100);
}

#[test]
fn utilization_agrees_with_float_arithmetic() {
    for total in [1u32, 3, 7, 100, 400, 997, 4096] {
        for idle in 0..=total {
            let fraction = 1.0 - idle as f64 / total as f64;
            assert_eq!(utilization_percent(fraction.to_bits()), float_utilization(fraction));
        }
    }
}

fn next_random(state: &mut u64) -> u64 {
    *state ^= *state << 13;
    *state ^= *state >> 7;
    *state ^= *state << 17;
    *state
}

#[test]
fn utilization_agrees_with_float_arithmetic_on_any_pattern() {
    let mut state: u64 = 0x9e37_79b9_7f4a_7c15;
    for _ in 0..400_000 {
        let bits = next_random(&mut state);
        assert_eq!(utilization_percent(bits), float_utilization(f64::from_bits(bits)));
    }
}

#[test]
fn utilization_agrees_with_float_arithmetic_on_small_values() {
    let mut state: u64 = 0x2545_f491_4f6c_dd1d;
    for _ in 0..400_000 {
        // a value between 0 and 4, with all 52 fraction bits in use
        let value = (next_random(&mut state) >> 11) as f64 / (1u64 << 51) as f64;
        assert!(value < 4.0);
        assert_eq!(utilization_percent(value.to_bits()), float_utilization(value));
    }
}

#[test]
fn utilization_agrees_with_float_arithmetic_next_to_halves() {
    for percent in 0u32..=260 {
        let half = (percent as f64 + 0.5) / 100.0;
        let mut bits = half.to_bits() - 40;
        for _ in 0..80 {
            assert_eq!(utilization_percent(bits), float_utilization(f64::from_bits(bits)));
            bits += 1;
        }
    }
}

#[test]
fn utilization_of_a_fraction_whose_product_rounds_to_a_half() {
    // 1 - 2/400 is a little less than 0.995, and one hundred times it is
    // 99.5 once the product is rounded to a binary64 number.
    let fraction = 1.0 - 2.0f64 / 400.0;
    assert!(fraction * 100.0 == 99.5);
    assert_eq!(utilization_percent(fraction.to_bits()), 100);
}

#[test]
fn round_magnitude_times_agrees_with_float_arithmetic() {
    let mut state: u64 = 0x1234_5678_9abc_def1;
    for _ in 0..200_000 {
        let bits = next_random(&mut state);
        let factor = (next_random(&mut state) >> 56) as u8;
        let value = f64::from_bits(bits);
        let expected = if value.is_finite() {
            Some((value.abs() * factor as f64).round() as u64)
        } else {
            None
        };
        assert_eq!(round_magnitude_times(bits, factor), expected);
    }
    for factor in [0u8, 1, 3, 7, 100, 255] {
        for exponent in 1000u64..1100 {
            for fraction in [0u64, 1, 0x8_0000_0000_0000, 0xf_ffff_ffff_ffff, 0x5_5555_5555_5555] {
                let bits = (exponent << 52) | fraction;
                let value = f64::from_bits(bits);
                let expected = (value * factor as f64).round() as u64;
                assert_eq!(round_magnitude_times(bits, factor), Some(expected));
            }
        }
    }
}

#[test]
fn utilization_is_not_clamped_to_100() {
    assert_eq!(utilization_percent(1.5f64.to_bits()), 150);
    assert_eq!(utilization_percent(2.55f64.to_bits()), 255);
    assert_eq!(utilization_percent(3.0f64.to_bits()), 255);
    assert_eq!(utilization_percent(1.0e300f64.to_bits()), 255);
    assert_eq!(utilization_percent(f64::MAX.to_bits()), 255);
}

#[test]
fn utilization_of_values_that_are_no_fraction() {
    assert_eq!(utilization_percent(f64::NAN.to_bits()), 0);
    assert_eq!(utilization_percent((0.0f64 / 0.0f64).to_bits()), 0);
    assert_eq!(utilization_percent(f64::INFINITY.to_bits()), 255);
    assert_eq!(utilization_percent(f64::NEG_INFINITY.to_bits()), 0);
    assert_eq!(utilization_percent((-0.0f64).to_bits()), 0);
    assert_eq!(utilization_percent((-0.3f64).to_bits()), 0);
    assert_eq!(utilization_percent((-5.0f64).to_bits()), 0);
    assert_eq!(utilization_percent(f64::MIN_POSITIVE.to_bits()), 0);
    assert_eq!(utilization_percent(1u64), 0);
    assert_eq!(utilization_percent(1.0e-300f64.to_bits()), 0);
}

#[test]
fn round_magnitude_times_is_exact() {
    assert_eq!(round_magnitude_times(1.0f64.to_bits(), 100), Some(100));
    assert_eq!(round_magnitude_times((-1.0f64).to_bits(), 100), Some(100));
    assert_eq!(round_magnitude_times(0.5f64.to_bits(), 1), Some(1));
    assert_eq!(round_magnitude_times(0.25f64.to_bits(), 1), Some(0));
    assert_eq!(round_magnitude_times(2.5f64.to_bits(), 1), Some(3));
    assert_eq!(round_magnitude_times(2.5f64.to_bits(), 0), Some(0));
    assert_eq!(round_magnitude_times(1.0e15f64.to_bits(), 7), Some(7_000_000_000_000_000));
    assert_eq!(round_magnitude_times(9007199254740992.0f64.to_bits(), 2), Some(1u64 << 54));
    assert_eq!(round_magnitude_times(1.0e30f64.to_bits(), 1), Some(u64::MAX));
    assert_eq!(round_magnitude_times(1.0e30f64.to_bits(), 0), Some(0));
    assert_eq!(round_magnitude_times(f64::NAN.to_bits(), 100), None);
    assert_eq!(round_magnitude_times(f64::INFINITY.to_bits(), 100), None);
    assert_eq!(round_magnitude_times(f64::NEG_INFINITY.to_bits(), 100), None);
}

#[test]
fn encode_binary32_matches_the_float_of_every_byte() {
    for n in 0u8..=255 {
        assert_eq!(encode_binary32(n), (n as f32).to_bits());
        assert_eq!(f32::from_bits(encode_binary32(n)), n as f32);
    }
    assert_eq!(encode_binary32(0), 0);
    assert_eq!(encode_binary32(1), 0x3f80_0000);
    assert_eq!(encode_binary32(52), 0x4250_0000);
    assert_eq!(encode_binary32(255), 0x437f_0000);
}

#[test]
fn sample_from_window() {
    let window = MeasurementWindow {
        energy_start_uj: 10_000_000,
        energy_end_uj: 15_000_000,
        interval_ms: 1000,
        non_idle_bits: 0.75f64.to_bits(),
    };
    let sample = TelemetrySample::from_window(&window, 52000, TemperatureUnit::Celsius);
    assert_eq!(
        sample,
        Ok(TelemetrySample {
            utilization_percent: 75,
            power_draw_watts: 5,
            temperature_value: 52,
            unit: TemperatureUnit::Celsius,
        })
    );
    assert_eq!(window.utilization_percent(), 75);
}

#[test]
fn sample_from_window_whose_counter_went_backwards() {
    let window = MeasurementWindow {
        energy_start_uj: 15_000_000,
        energy_end_uj: 10_000_000,
        interval_ms: 1000,
        non_idle_bits: 0.75f64.to_bits(),
    };
    assert_eq!(window.power_draw_watts(), None);
    assert_eq!(
        TelemetrySample::from_window(&window, 52000, TemperatureUnit::Celsius),
        Err(MonitorError::SensorReadFailure)
    );
}

#[test]
fn end_to_end_scenario() {
    // interval 1000 ms, 5_000_000 microjoules, 75 percent busy, 52 degrees Celsius
    let window = MeasurementWindow {
        energy_start_uj: 123_456_789,
        energy_end_uj: 128_456_789,
        interval_ms: 1000,
        non_idle_bits: 0.75f64.to_bits(),
    };
    let sample = TelemetrySample::from_window(&window, 52000, TemperatureUnit::Celsius).unwrap();
    assert_eq!(sample.power_draw_watts, 5);
    assert_eq!(sample.utilization_percent, 75);
    assert_eq!(sample.temperature_value, 52);
    let packet = build_status_frame(&sample);
    let bytes = packet.as_bytes();
    assert_eq!(&bytes[8..10], &[0x00, 0x05]);
    assert_eq!(bytes[10], 0);
    assert_eq!(&bytes[11..15], &52.0f32.to_be_bytes());
    assert_eq!(bytes[15], 75);
    assert_eq!(&bytes[8..18], &[0x00, 0x05, 0, 0x42, 0x50, 0, 0, 75, 95, 22]);
    let again = build_status_frame(&sample);
    assert_eq!(packet, again);
}

#[test]
fn unit_flags() {
    assert_eq!(TemperatureUnit::Celsius.flag(), 0);
    assert_eq!(TemperatureUnit::Fahrenheit.flag(), 1);
}
