//! The host's sensor endpoints: where they are, which chip is the CPU's,
//! and what their text means.
//!
//! Nothing here opens a file. The caller reads; these functions name the
//! paths to read and interpret what came back.

use vstd::prelude::*;
use crate::error::MonitorError;
use crate::telemetry::{TemperatureUnit, display_temperature, display_temperature_spec};
use crate::text::{
    append_decimal,
    chars_of,
    decimal_digits,
    parse_unsigned,
    parse_unsigned_spec,
    trim_end_spec,
    trim_spec,
    trimmed_end,
};

verus! {

/// Where the cumulative energy counter of the CPU package is read, in
/// microjoules.
pub open spec fn energy_path_spec() -> Seq<char> {
    "/sys/class/powercap/intel-rapl/intel-rapl:0/energy_uj"@
}

/// Where the name label of sensor chip `index` is read.
pub open spec fn chip_name_path_spec(index: u64) -> Seq<char> {
    "/sys/class/hwmon/hwmon"@ + decimal_digits(index as nat) + "/name"@
}

/// Where the temperature of sensor chip `index` is read, in millidegrees
/// Celsius.
pub open spec fn temperature_path_spec(index: u64) -> Seq<char> {
    "/sys/class/hwmon/hwmon"@ + decimal_digits(index as nat) + "/temp1_input"@
}

/// The path of the energy counter.
pub fn energy_path() -> (path: &'static str)
    ensures
        path@ == energy_path_spec(),
{
    "/sys/class/powercap/intel-rapl/intel-rapl:0/energy_uj"
}

/// The path of the name label of sensor chip `index`.
pub fn chip_name_path(index: u64) -> (path: String)
    ensures
        path@ == chip_name_path_spec(index),
{
    let mut path = String::from_str("/sys/class/hwmon/hwmon");
    append_decimal(&mut path, index);
    path.append("/name");
    path
}

/// The path of the temperature input of sensor chip `index`.
pub fn temperature_path(index: u64) -> (path: String)
    ensures
        path@ == temperature_path_spec(index),
{
    let mut path = String::from_str("/sys/class/hwmon/hwmon");
    append_decimal(&mut path, index);
    path.append("/temp1_input");
    path
}

/// A chip label names a CPU temperature sensor: without the white space at
/// its end, it is one of the two recognised names.
pub open spec fn is_cpu_sensor_name_spec(label: Seq<char>) -> bool {
    let name = trim_end_spec(label);
    name == "k10temp"@ || name == "coretemp"@
}

/// `chars[..end]` and `word` are the same text.
fn starts_exactly(chars: &Vec<char>, end: usize, word: &str) -> (same: bool)
    requires
        end <= chars.len(),
    ensures
        same == (chars@.subrange(0, end as int) == word@),
{
    let word_chars = chars_of(word);
    if word_chars.len() != end {
        return false;
    }
    let mut i: usize = 0;
    while i < end
        invariant
            i <= end <= chars.len(),
            word_chars.len() == end,
            word_chars@ == word@,
            forall|j: int| 0 <= j < i ==> chars@[j] == word_chars@[j],
        decreases end - i,
    {
        if chars[i] != word_chars[i] {
            assert(chars@.subrange(0, end as int)[i as int] != word_chars@[i as int]);
            return false;
        }
        i = i + 1;
    }
    assert(chars@.subrange(0, end as int) =~= word_chars@);
    true
}

/// Tells whether a chip's name label is that of a CPU temperature sensor.
pub fn is_cpu_sensor_name(label: &str) -> (yes: bool)
    ensures
        yes == is_cpu_sensor_name_spec(label@),
{
    let chars = chars_of(label);
    let end = trimmed_end(&chars, 0);
    assert(chars@.subrange(0, chars.len() as int) =~= chars@);
    starts_exactly(&chars, end, "k10temp") || starts_exactly(&chars, end, "coretemp")
}

/// What came of reading one chip's name label.
#[derive(Debug, PartialEq, Eq)]
pub enum ChipProbe {
    /// The label was read; this is its text.
    Label(String),
    /// The label could not be read.
    Unreadable,
}

impl ChipProbe {
    /// The probe found a CPU temperature sensor.
    pub open spec fn is_cpu_sensor(self) -> bool {
        self matches ChipProbe::Label(label) && is_cpu_sensor_name_spec(label@)
    }

    /// The probe found a chip, and it is not a CPU temperature sensor.
    pub open spec fn is_other_chip(self) -> bool {
        self matches ChipProbe::Label(label) && !is_cpu_sensor_name_spec(label@)
    }
}

/// How a scan over the chips ended.
#[derive(Clone, Copy, Debug, PartialEq, Eq, Structural)]
pub enum ScanOutcome {
    /// The chip at this index is the first CPU temperature sensor.
    Found(usize),
    /// The label at this index could not be read, and no chip before it is
    /// a CPU temperature sensor.
    Unreadable(usize),
    /// Every label was read, and none names a CPU temperature sensor.
    Exhausted,
}

/// The outcome of scanning `probes` in order from index `from`: the scan
/// passes over chips with other names and stops at the first CPU sensor, at
/// the first label that could not be read, or at the end.
pub open spec fn scan_from(probes: Seq<ChipProbe>, from: int) -> ScanOutcome
    decreases probes.len() - from,
{
    if from < 0 || from >= probes.len() {
        ScanOutcome::Exhausted
    } else if probes[from] is Unreadable {
        ScanOutcome::Unreadable(from as usize)
    } else if probes[from].is_cpu_sensor() {
        ScanOutcome::Found(from as usize)
    } else {
        scan_from(probes, from + 1)
    }
}

/// Scans the chips in order for the CPU temperature sensor.
pub fn scan_sensors(probes: &Vec<ChipProbe>) -> (outcome: ScanOutcome)
    ensures
        outcome == scan_from(probes@, 0),
{
    let mut i: usize = 0;
    while i < probes.len()
        invariant
            i <= probes.len(),
            scan_from(probes@, 0) == scan_from(probes@, i as int),
        decreases probes.len() - i,
    {
        match &probes[i] {
            ChipProbe::Unreadable => {
                return ScanOutcome::Unreadable(i);
            },
            ChipProbe::Label(label) => {
                if is_cpu_sensor_name(label.as_str()) {
                    return ScanOutcome::Found(i);
                }
            },
        }
        i = i + 1;
    }
    ScanOutcome::Exhausted
}

/// Where a scan stopped is the first place at which it could stop: every
/// chip before it was read and has another name.
pub proof fn lemma_scan_stops_first(probes: Seq<ChipProbe>, from: int)
    requires
        0 <= from,
        probes.len() <= usize::MAX,
    ensures
        match scan_from(probes, from) {
            ScanOutcome::Found(i) => {
                &&& from <= i < probes.len()
                &&& probes[i as int].is_cpu_sensor()
                &&& forall|j: int| from <= j < i ==> (#[trigger] probes[j]).is_other_chip()
            },
            ScanOutcome::Unreadable(i) => {
                &&& from <= i < probes.len()
                &&& probes[i as int] is Unreadable
                &&& forall|j: int| from <= j < i ==> (#[trigger] probes[j]).is_other_chip()
            },
            ScanOutcome::Exhausted => forall|j: int|
                from <= j < probes.len() ==> (#[trigger] probes[j]).is_other_chip(),
        },
    decreases probes.len() - from,
{
    if from < probes.len() && !(probes[from] is Unreadable) && !probes[from].is_cpu_sensor() {
        lemma_scan_stops_first(probes, from + 1);
    }
}

/// The outcome for one probe more: a scan that had stopped stops at the same
/// place, and a scan that had run out stops at the new probe or runs out
/// again.
pub proof fn lemma_scan_one_more(probes: Seq<ChipProbe>, from: int)
    requires
        probes.len() > 0,
        0 <= from < probes.len(),
    ensures
        scan_from(probes, from) == match scan_from(probes.drop_last(), from) {
            ScanOutcome::Exhausted => if probes.last() is Unreadable {
                ScanOutcome::Unreadable((probes.len() - 1) as usize)
            } else if probes.last().is_cpu_sensor() {
                ScanOutcome::Found((probes.len() - 1) as usize)
            } else {
                ScanOutcome::Exhausted
            },
            stopped => stopped,
        },
    decreases probes.len() - from,
{
    let shorter = probes.drop_last();
    if from < shorter.len() {
        assert(shorter[from] == probes[from]);
        if !(probes[from] is Unreadable) && !probes[from].is_cpu_sensor() {
            if from + 1 < probes.len() {
                lemma_scan_one_more(probes, from + 1);
            }
        }
    } else {
        assert(scan_from(probes, from + 1) == ScanOutcome::Exhausted);
    }
}

/// The temperature endpoint of the process: resolved once, then reused.
#[derive(Clone, Copy, Debug, PartialEq, Eq, Structural)]
pub struct SensorEndpoint {
    /// The index of the CPU's sensor chip.
    pub chip_index: u64,
}

impl SensorEndpoint {
    /// The path of the endpoint's temperature input.
    pub fn temperature_path(&self) -> (path: String)
        ensures
            path@ == temperature_path_spec(self.chip_index),
    {
        temperature_path(self.chip_index)
    }
}

/// Picks the temperature endpoint from the probed chips: the first chip
/// with a recognised name.
///
/// Fails with `SensorNotFound` where the scan reaches an unreadable label or
/// the end of the list before such a chip.
pub fn resolve_temperature_endpoint(probes: &Vec<ChipProbe>) -> (endpoint: Result<
    SensorEndpoint,
    MonitorError,
>)
    ensures
        match scan_from(probes@, 0) {
            ScanOutcome::Found(i) => endpoint == Ok::<SensorEndpoint, MonitorError>(
                SensorEndpoint { chip_index: i as u64 },
            ),
            _ => endpoint == Err::<SensorEndpoint, MonitorError>(MonitorError::SensorNotFound),
        },
{
    match scan_sensors(probes) {
        ScanOutcome::Found(i) => Ok(SensorEndpoint { chip_index: i as u64 }),
        _ => Err(MonitorError::SensorNotFound),
    }
}

/// Finds the CPU temperature sensor among the probed chips and returns the
/// path of its temperature input.
///
/// Fails with `SensorNotFound` where the scan reaches an unreadable label or
/// the end of the list before a chip with a recognised name.
pub fn find_cpu_sensor(probes: &Vec<ChipProbe>) -> (path: Result<String, MonitorError>)
    ensures
        match scan_from(probes@, 0) {
            ScanOutcome::Found(i) => path matches Ok(p) && p@ == temperature_path_spec(i as u64),
            _ => path == Err::<String, MonitorError>(MonitorError::SensorNotFound),
        },
{
    match resolve_temperature_endpoint(probes) {
        Ok(endpoint) => Ok(endpoint.temperature_path()),
        Err(error) => Err(error),
    }
}

/// What the text of the energy counter means: a number that fits in
/// sixty-four bits, with white space around it.
pub open spec fn read_energy_spec(text: Seq<char>) -> Option<int> {
    parse_unsigned_spec(trim_spec(text), u64::MAX as int)
}

/// Interprets the text of the energy counter, in microjoules.
///
/// Fails with `SensorReadFailure` where the text is not such a number.
pub fn read_energy(text: &str) -> (energy: Result<u64, MonitorError>)
    ensures
        match read_energy_spec(text@) {
            Some(v) => energy == Ok::<u64, MonitorError>(v as u64),
            None => energy == Err::<u64, MonitorError>(MonitorError::SensorReadFailure),
        },
{
    match parse_unsigned(text, u64::MAX) {
        Some(v) => Ok(v),
        None => Err(MonitorError::SensorReadFailure),
    }
}

/// What the text of a temperature input means: a number of millidegrees
/// Celsius that fits in thirty-two bits, with white space around it.
pub open spec fn read_millidegrees_spec(text: Seq<char>) -> Option<int> {
    parse_unsigned_spec(trim_spec(text), u32::MAX as int)
}

/// Interprets the text of a temperature input and converts it into the
/// whole degrees of `unit` that the display shows.
///
/// Fails with `SensorReadFailure` where the text is not a number of
/// millidegrees that fits in thirty-two bits.
pub fn read_temperature(text: &str, unit: TemperatureUnit) -> (shown: Result<u8, MonitorError>)
    ensures
        match read_millidegrees_spec(text@) {
            Some(raw) => shown == Ok::<u8, MonitorError>(
                display_temperature_spec(raw as u32, unit),
            ),
            None => shown == Err::<u8, MonitorError>(MonitorError::SensorReadFailure),
        },
{
    match parse_unsigned(text, 0xffff_ffff) {
        Some(raw) => Ok(display_temperature(raw as u32, unit)),
        None => Err(MonitorError::SensorReadFailure),
    }
}

} // verus!
