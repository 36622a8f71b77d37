//! One poll cycle's readings, in display units.

use vstd::prelude::*;
use vstd::arithmetic::power2::{
    pow2,
    lemma2_to64,
    lemma2_to64_rest,
    lemma_pow2_strictly_increases,
    lemma_pow2_pos,
};
use crate::error::MonitorError;
use crate::ieee754::{
    binary64_exponent,
    binary64_fraction,
    binary64_is_finite,
    binary64_is_nan,
    binary64_is_negative,
    binary64_magnitude_times,
    binary64_product_scale,
    binary64_product_significand,
    binary64_scale,
    binary64_significand,
    excess_bits,
    lemma_excess_bits_bound,
    round_magnitude_times,
};
use crate::rounding::{
    div_round,
    saturate_u8,
    saturate_u16,
    lemma_div_round_even_is_nearest,
    lemma_div_round_is_nearest,
};

verus! {

/// The unit the temperature is shown in.
#[derive(Clone, Copy, Debug, PartialEq, Eq, Structural)]
pub enum TemperatureUnit {
    Celsius,
    Fahrenheit,
}

impl TemperatureUnit {
    /// The unit byte of a status frame: 0 for Celsius, 1 for Fahrenheit.
    pub open spec fn flag_spec(self) -> u8 {
        match self {
            TemperatureUnit::Celsius => 0,
            TemperatureUnit::Fahrenheit => 1,
        }
    }

    /// The unit byte of a status frame.
    pub fn flag(&self) -> (flag: u8)
        ensures
            flag == self.flag_spec(),
    {
        match self {
            TemperatureUnit::Celsius => 0,
            TemperatureUnit::Fahrenheit => 1,
        }
    }
}

/// What one status frame carries. The fields are already whole numbers in
/// the units of the display: rounding happens where a sample is made.
#[derive(Clone, Copy, Debug, PartialEq, Eq, Structural)]
pub struct TelemetrySample {
    /// Share of CPU time that was not idle, in percent.
    pub utilization_percent: u8,
    /// Package power in watts.
    pub power_draw_watts: u16,
    /// Temperature in whole degrees of `unit`.
    pub temperature_value: u8,
    /// The unit of `temperature_value`.
    pub unit: TemperatureUnit,
}

/// Millidegrees in one degree.
pub const MILLIDEGREES_PER_DEGREE: u64 = 1000;

/// The freezing point of water in millidegrees Fahrenheit.
pub const FAHRENHEIT_OFFSET_MILLIDEGREES: u64 = 32000;

/// A raw reading in millidegrees Celsius, in millidegrees of `unit`:
/// `F = C * 9 / 5 + 32000`, the division rounding down.
pub open spec fn millidegrees_in_unit(raw_millidegrees: u32, unit: TemperatureUnit) -> int {
    match unit {
        TemperatureUnit::Celsius => raw_millidegrees as int,
        TemperatureUnit::Fahrenheit => raw_millidegrees * 9 / 5 + 32000,
    }
}

/// The temperature shown for a raw reading: converted to `unit`, rounded to
/// the nearest whole degree, and limited to one byte.
pub open spec fn display_temperature_spec(raw_millidegrees: u32, unit: TemperatureUnit) -> u8 {
    saturate_u8(div_round(millidegrees_in_unit(raw_millidegrees, unit), 1000))
}

/// Converts a raw reading in millidegrees Celsius into the whole degrees
/// that the display shows.
///
/// Readings that round to more than 255 degrees come out as 255.
pub fn display_temperature(raw_millidegrees: u32, unit: TemperatureUnit) -> (shown: u8)
    ensures
        shown == display_temperature_spec(raw_millidegrees, unit),
{
    let raw: u64 = raw_millidegrees as u64;
    let millidegrees: u64 = match unit {
        TemperatureUnit::Celsius => raw,
        TemperatureUnit::Fahrenheit => raw * 9 / 5 + FAHRENHEIT_OFFSET_MILLIDEGREES,
    };
    let degrees: u64 = (millidegrees + MILLIDEGREES_PER_DEGREE / 2) / MILLIDEGREES_PER_DEGREE;
    if degrees > 0xff {
        0xff
    } else {
        degrees as u8
    }
}

/// The Fahrenheit value shown for a raw reading of `c` millidegrees Celsius
/// is `(c * 9 / 5 + 32000) / 1000` rounded to the nearest whole number,
/// wherever that number fits in a byte. It is nearest to the converted
/// millidegrees, and just as near to the exact value `9c/5 + 32000`, which
/// the conversion rounds down: rounding the millidegrees first never moves
/// the degree that comes out.
pub proof fn lemma_fahrenheit_display_is_nearest(c: u32)
    ensures
        ({
            let shown = div_round(c * 9 / 5 + 32000, 1000);
            &&& 1000 * shown - 500 <= c * 9 / 5 + 32000 < 1000 * shown + 500
            &&& 5 * (1000 * shown - 500) <= 9 * c + 160000 < 5 * (1000 * shown + 500)
            &&& shown <= 255 ==> display_temperature_spec(c, TemperatureUnit::Fahrenheit) == shown
            &&& shown > 255 ==> display_temperature_spec(c, TemperatureUnit::Fahrenheit) == 255
            &&& shown <= 255 <==> c <= 124_166
        }),
{
    let f = millidegrees_in_unit(c, TemperatureUnit::Fahrenheit);
    lemma_div_round_is_nearest(f, 1000);
}

/// The Celsius value shown is the reading over 1000, rounded to the nearest
/// whole number, wherever that number fits in a byte.
pub proof fn lemma_celsius_display_is_nearest(c: u32)
    ensures
        ({
            let shown = div_round(c as int, 1000);
            &&& 1000 * shown - 500 <= c < 1000 * shown + 500
            &&& shown <= 255 ==> display_temperature_spec(c, TemperatureUnit::Celsius) == shown
            &&& shown > 255 ==> display_temperature_spec(c, TemperatureUnit::Celsius) == 255
            &&& shown <= 255 <==> c <= 255_499
        }),
{
    lemma_div_round_is_nearest(c as int, 1000);
}

/// The power over a window in which `energy_delta_uj` microjoules were
/// used in `interval_ms` milliseconds: the quotient in watts, rounded to the
/// nearest whole watt and limited to sixteen bits.
///
/// A window of no length has no quotient. It reads as the largest value
/// where energy was used and as zero where none was.
pub open spec fn power_draw_watts_spec(energy_delta_uj: u64, interval_ms: u64) -> u16 {
    if interval_ms == 0 {
        if energy_delta_uj == 0 {
            0
        } else {
            0xffff
        }
    } else {
        saturate_u16(div_round(energy_delta_uj as int, interval_ms * 1000))
    }
}

/// Derives the power draw in whole watts from the energy used over a
/// window.
pub fn power_draw_watts(energy_delta_uj: u64, interval_ms: u64) -> (watts: u16)
    ensures
        watts == power_draw_watts_spec(energy_delta_uj, interval_ms),
{
    if interval_ms == 0 {
        return if energy_delta_uj == 0 {
            0
        } else {
            0xffff
        };
    }
    // A microjoule per microsecond is a watt, and a millisecond has 1000
    // microseconds.
    let microseconds: u128 = interval_ms as u128 * 1000;
    let rounded: u128 = (energy_delta_uj as u128 + microseconds / 2) / microseconds;
    if rounded > 0xffff {
        0xffff
    } else {
        rounded as u16
    }
}

/// The power shown is the whole number of watts nearest to the exact
/// quotient of energy and time, as long as it fits in sixteen bits.
pub proof fn lemma_power_draw_is_nearest(energy_delta_uj: u64, interval_ms: u64)
    requires
        interval_ms > 0,
    ensures
        ({
            let watts = div_round(energy_delta_uj as int, interval_ms * 1000);
            &&& (2 * watts - 1) * (interval_ms * 1000) <= 2 * energy_delta_uj < (2 * watts + 1)
                * (interval_ms * 1000)
            &&& power_draw_watts_spec(energy_delta_uj, interval_ms) == saturate_u16(watts)
        }),
{
    lemma_div_round_is_nearest(energy_delta_uj as int, interval_ms * 1000);
}

/// The sign bit of a binary64 pattern.
pub const BINARY64_SIGN_BIT: u64 = 0x8000_0000_0000_0000;

/// The binary64 pattern of the number one.
pub const BINARY64_ONE: u64 = 0x3ff0_0000_0000_0000;

/// The utilization byte for a busy fraction that is given as a binary64
/// pattern: one hundred times the fraction, rounded to the nearest whole
/// number and limited to one byte. A NaN reads as zero, and so does
/// whatever is negative; positive infinity reads as 255. Nothing limits the
/// byte to 100: a fraction above one shows as it is.
pub open spec fn utilization_percent_spec(non_idle_bits: u64) -> u8 {
    if binary64_is_nan(non_idle_bits) || binary64_is_negative(non_idle_bits) {
        0
    } else if !binary64_is_finite(non_idle_bits) {
        0xff
    } else {
        saturate_u8(binary64_magnitude_times(non_idle_bits, 100))
    }
}

/// Turns the busy fraction of a window into the utilization byte.
///
/// The fraction comes as the bit pattern of a binary64 number, which is how
/// a sampler that computes in floating point can hand it over unchanged.
pub fn utilization_percent(non_idle_bits: u64) -> (percent: u8)
    ensures
        percent == utilization_percent_spec(non_idle_bits),
{
    let negative: bool = non_idle_bits >= BINARY64_SIGN_BIT;
    match round_magnitude_times(non_idle_bits, 100) {
        None => {
            let fraction: u64 = non_idle_bits % 0x10_0000_0000_0000;
            if fraction != 0 || negative {
                0
            } else {
                0xff
            }
        },
        Some(rounded) => {
            if negative {
                0
            } else if rounded > 0xff {
                0xff
            } else {
                rounded as u8
            }
        },
    }
}

/// For a finite fraction that is not negative and below `2^46`, which
/// covers every fraction that makes sense, the utilization before
/// saturation is one hundred times the fraction, rounded twice to the
/// nearest: once to the 53 bits of a binary64 product, halves to even, and
/// once to a whole number, halves upward.
///
/// With `p` for one hundred times the significand, `x` for its bits too
/// many and `m` for the rounded significand, `m` is within one half of
/// `p / 2^x`; and with `2^d` for what scales `m` down, the result `q` is
/// within one half of `m / 2^d`.
pub proof fn lemma_utilization_is_nearest(non_idle_bits: u64)
    requires
        binary64_is_finite(non_idle_bits),
        !binary64_is_negative(non_idle_bits),
        binary64_product_scale(non_idle_bits, 100) < 0,
    ensures
        ({
            let p = 100 * binary64_significand(non_idle_bits);
            let x = excess_bits(p as nat);
            let m = binary64_product_significand(non_idle_bits, 100);
            let d = (-binary64_product_scale(non_idle_bits, 100)) as nat;
            let q = binary64_magnitude_times(non_idle_bits, 100);
            &&& (2 * m - 1) * pow2(x) <= 2 * p <= (2 * m + 1) * pow2(x)
            &&& (2 * q - 1) * pow2(d) <= 2 * m < (2 * q + 1) * pow2(d)
            &&& utilization_percent_spec(non_idle_bits) == saturate_u8(q)
        }),
{
    let p = binary64_significand(non_idle_bits) * 100;
    let x = excess_bits(p as nat);
    let m = binary64_product_significand(non_idle_bits, 100);
    let d = (-binary64_product_scale(non_idle_bits, 100)) as nat;
    lemma_pow2_pos(x);
    lemma_pow2_pos(d);
    lemma_div_round_even_is_nearest(p, pow2(x) as int);
    lemma_div_round_is_nearest(m, pow2(d) as int);
}

/// A fraction between zero and one shows as a percentage between 0 and
/// 100: zero as 0, one as 100.
pub proof fn lemma_utilization_of_unit_fraction(non_idle_bits: u64)
    requires
        non_idle_bits <= BINARY64_ONE,
    ensures
        utilization_percent_spec(non_idle_bits) <= 100,
        non_idle_bits == BINARY64_ONE ==> utilization_percent_spec(non_idle_bits) == 100,
        non_idle_bits == 0 ==> utilization_percent_spec(non_idle_bits) == 0,
{
    let e = binary64_exponent(non_idle_bits);
    let f = binary64_fraction(non_idle_bits);
    let sig = binary64_significand(non_idle_bits);
    assert(e <= 1023);
    assert(e == 1023 ==> f == 0);
    let p = sig * 100;
    let x = excess_bits(p as nat);
    let m = binary64_product_significand(non_idle_bits, 100);
    lemma2_to64();
    lemma2_to64_rest();
    if e == 1023 {
        assert(p == 0x640_0000_0000_0000);
        assert(x == 6) by {
            reveal_with_fuel(excess_bits, 8);
        }
        assert(pow2(x) == 0x40);
        assert(p / 0x40 == 0x19_0000_0000_0000 && p % 0x40 == 0);
        assert(m == 0x19_0000_0000_0000);
        assert(pow2(46) == 0x4000_0000_0000);
        assert(binary64_product_scale(non_idle_bits, 100) == -46);
        assert(pow2(46) as int == 0x4000_0000_0000);
        assert(div_round(m, 0x4000_0000_0000) == 100);
        assert(binary64_magnitude_times(non_idle_bits, 100) == div_round(m, pow2(46) as int));
    } else {
        let down = (-binary64_scale(non_idle_bits)) as nat;
        assert(down >= 53);
        assert(sig < 0x20_0000_0000_0000);
        assert(p < 0x20_0000_0000_0000 * pow2(7));
        lemma_excess_bits_bound(p as nat, 7);
        let d = (down - x) as nat;
        let small = pow2(x) as int;
        let unit = pow2(d) as int;
        lemma_pow2_pos(x);
        lemma_pow2_pos(d);
        assert(binary64_product_scale(non_idle_bits, 100) == -d);
        vstd::arithmetic::power2::lemma_pow2_adds(d, x);
        if down > 53 {
            lemma_pow2_strictly_increases(53, down);
        }
        assert(unit * small >= 0x20_0000_0000_0000);
        // The exact product lies below one hundred units, so its rounded
        // significand does not pass them.
        assert(p < small * (100 * unit)) by (nonlinear_arith)
            requires
                p < 100 * 0x20_0000_0000_0000,
                unit * small >= 0x20_0000_0000_0000,
        ;
        vstd::arithmetic::div_mod::lemma_multiply_divide_lt(p, small, 100 * unit);
        assert(m <= 100 * unit);
        let q = div_round(m, unit);
        assert(binary64_magnitude_times(non_idle_bits, 100) == q);
        vstd::arithmetic::div_mod::lemma_div_pos_is_pos(p, small);
        lemma_div_round_is_nearest(m, unit);
        if q > 100 {
            assert((2 * q - 1) * unit >= 201 * unit) by (nonlinear_arith)
                requires
                    q >= 101,
                    unit > 0,
            ;
        }
        if non_idle_bits == 0 {
            assert(p == 0);
            assert(x == 0);
            assert(m == 0);
            if q > 0 {
                assert((2 * q - 1) * unit >= unit) by (nonlinear_arith)
                    requires
                        q >= 1,
                        unit > 0,
                ;
            }
        }
    }
}

/// What was measured across one sleep of the poll loop. Energy and
/// utilization belong to the same window: both are taken at its start and
/// at its end.
#[derive(Clone, Copy, Debug, PartialEq, Eq, Structural)]
pub struct MeasurementWindow {
    /// The energy counter at the start of the window, in microjoules.
    pub energy_start_uj: u64,
    /// The energy counter at the end of the window, in microjoules.
    pub energy_end_uj: u64,
    /// The length of the window in milliseconds.
    pub interval_ms: u64,
    /// The share of CPU time that was not idle, as a binary64 pattern.
    pub non_idle_bits: u64,
}

impl MeasurementWindow {
    /// The energy counter did not go backwards.
    pub open spec fn is_monotonic(self) -> bool {
        self.energy_start_uj <= self.energy_end_uj
    }

    /// The power over the window, in whole watts.
    pub open spec fn power_spec(self) -> u16 {
        power_draw_watts_spec((self.energy_end_uj - self.energy_start_uj) as u64, self.interval_ms)
    }

    /// The utilization over the window, in percent.
    pub open spec fn utilization_spec(self) -> u8 {
        utilization_percent_spec(self.non_idle_bits)
    }

    /// The power over the window in whole watts, unless the counter went
    /// backwards.
    pub fn power_draw_watts(&self) -> (watts: Option<u16>)
        ensures
            watts == if self.is_monotonic() {
                Some(self.power_spec())
            } else {
                None
            },
    {
        if self.energy_start_uj <= self.energy_end_uj {
            Some(power_draw_watts(self.energy_end_uj - self.energy_start_uj, self.interval_ms))
        } else {
            None
        }
    }

    /// The utilization over the window, in percent.
    pub fn utilization_percent(&self) -> (percent: u8)
        ensures
            percent == self.utilization_spec(),
    {
        utilization_percent(self.non_idle_bits)
    }
}

impl TelemetrySample {
    /// The sample for a window and a temperature reading in millidegrees
    /// Celsius, shown in `unit`.
    pub open spec fn of_window(
        window: MeasurementWindow,
        raw_millidegrees: u32,
        unit: TemperatureUnit,
    ) -> TelemetrySample {
        TelemetrySample {
            utilization_percent: window.utilization_spec(),
            power_draw_watts: window.power_spec(),
            temperature_value: display_temperature_spec(raw_millidegrees, unit),
            unit,
        }
    }

    /// Makes the sample of one poll cycle from what was measured.
    ///
    /// Fails with `SensorReadFailure` if and only if the energy counter went
    /// backwards across the window.
    pub fn from_window(
        window: &MeasurementWindow,
        raw_millidegrees: u32,
        unit: TemperatureUnit,
    ) -> (sample: Result<TelemetrySample, MonitorError>)
        ensures
            sample == if window.is_monotonic() {
                Ok::<TelemetrySample, MonitorError>(
                    TelemetrySample::of_window(*window, raw_millidegrees, unit),
                )
            } else {
                Err::<TelemetrySample, MonitorError>(MonitorError::SensorReadFailure)
            },
    {
        match window.power_draw_watts() {
            Some(watts) => Ok(
                TelemetrySample {
                    utilization_percent: window.utilization_percent(),
                    power_draw_watts: watts,
                    temperature_value: display_temperature(raw_millidegrees, unit),
                    unit,
                },
            ),
            None => Err(MonitorError::SensorReadFailure),
        }
    }
}

} // verus!
