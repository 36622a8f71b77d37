//! The poll loop as a state machine: handshake once, then measure, read and
//! transmit for ever.
//!
//! The machine does no work itself. Each step answers the event that ended
//! the last action with the next action; the caller performs it and comes
//! back with what happened. Any failure halts the machine for good.

use vstd::prelude::*;
use crate::config::MonitorConfig;
use crate::device::{DeviceDescriptor, VENDOR_ID, first_of_vendor, select_device};
use crate::error::MonitorError;
use crate::packet::{
    DevicePacket,
    build_init_frames,
    build_status_frame,
    first_init_frame,
    second_init_frame,
    status_frame,
};
use crate::sensor::{
    ChipProbe,
    ScanOutcome,
    lemma_scan_one_more,
    scan_from,
    chip_name_path,
    chip_name_path_spec,
    energy_path,
    energy_path_spec,
    is_cpu_sensor_name,
    is_cpu_sensor_name_spec,
    read_energy,
    read_energy_spec,
    read_temperature,
    read_millidegrees_spec,
    temperature_path,
    temperature_path_spec,
};
use crate::telemetry::{MeasurementWindow, TelemetrySample, display_temperature_spec};

verus! {

/// Where the loop stands. Each state but the first and the last names the
/// action that is in flight.
#[derive(Clone, Copy, Debug, PartialEq, Eq, Structural)]
pub enum LoopState {
    /// Nothing has been asked for yet.
    Created,
    /// The attached peripherals are being listed.
    Discovering,
    /// The selected peripheral is being opened.
    Opening,
    /// The name label of chip `index` is being read.
    Probing { index: u64 },
    /// The first handshake report is being written.
    HandshakeFirst { chip: u64 },
    /// The second handshake report is being written.
    HandshakeSecond { chip: u64 },
    /// A measurement window is open.
    Measuring { chip: u64 },
    /// The temperature is being read, after a window that gave these
    /// values.
    ReadingTemperature { chip: u64, power_draw_watts: u16, utilization_percent: u8 },
    /// A status report is being written.
    Transmitting { chip: u64 },
    /// The loop has ended with a fatal error.
    Halted { error: MonitorError },
}

/// The two states of the loop, and its end.
#[derive(Clone, Copy, Debug, PartialEq, Eq, Structural)]
pub enum Phase {
    /// Discovery, sensor resolution and handshake.
    Init,
    /// Status reports, one per window.
    SteadyState,
    /// The process is about to end.
    Halted,
}

impl LoopState {
    /// The phase a state belongs to.
    pub open spec fn phase_spec(self) -> Phase {
        match self {
            LoopState::Measuring { .. }
            | LoopState::ReadingTemperature { .. }
            | LoopState::Transmitting { .. } => Phase::SteadyState,
            LoopState::Halted { .. } => Phase::Halted,
            _ => Phase::Init,
        }
    }

    /// The phase a state belongs to.
    pub fn phase(&self) -> (phase: Phase)
        ensures
            phase == self.phase_spec(),
    {
        match self {
            LoopState::Measuring { .. }
            | LoopState::ReadingTemperature { .. }
            | LoopState::Transmitting { .. } => Phase::SteadyState,
            LoopState::Halted { .. } => Phase::Halted,
            _ => Phase::Init,
        }
    }

    /// The error that a failure of the action in flight amounts to.
    pub open spec fn failure_spec(self) -> MonitorError {
        match self {
            LoopState::Created | LoopState::Discovering => MonitorError::DeviceNotFound,
            LoopState::Opening => MonitorError::DeviceOpenFailure,
            LoopState::Probing { .. } => MonitorError::SensorNotFound,
            LoopState::HandshakeFirst { .. }
            | LoopState::HandshakeSecond { .. }
            | LoopState::Transmitting { .. } => MonitorError::TransportWriteFailure,
            LoopState::Measuring { .. }
            | LoopState::ReadingTemperature { .. } => MonitorError::SensorReadFailure,
            LoopState::Halted { error } => error,
        }
    }

    /// The error that a failure of the action in flight amounts to.
    pub fn failure(&self) -> (error: MonitorError)
        ensures
            error == self.failure_spec(),
    {
        match self {
            LoopState::Created | LoopState::Discovering => MonitorError::DeviceNotFound,
            LoopState::Opening => MonitorError::DeviceOpenFailure,
            LoopState::Probing { .. } => MonitorError::SensorNotFound,
            LoopState::HandshakeFirst { .. }
            | LoopState::HandshakeSecond { .. }
            | LoopState::Transmitting { .. } => MonitorError::TransportWriteFailure,
            LoopState::Measuring { .. }
            | LoopState::ReadingTemperature { .. } => MonitorError::SensorReadFailure,
            LoopState::Halted { error } => *error,
        }
    }
}

/// What a measurement window brought back: the text of the energy counter
/// at both ends, and the busy fraction in between.
#[derive(Debug, PartialEq, Eq)]
pub struct WindowReading {
    /// The text of the energy counter before the sleep.
    pub energy_start: String,
    /// The text of the energy counter after the sleep.
    pub energy_end: String,
    /// The share of CPU time that was not idle, as a binary64 pattern.
    pub non_idle_bits: u64,
}

/// What the caller reports back.
#[derive(Debug, PartialEq, Eq)]
pub enum Event {
    /// The caller is ready.
    Started,
    /// The attached peripherals, in the order of discovery.
    DevicesListed(Vec<DeviceDescriptor>),
    /// The peripheral is open.
    DeviceOpened,
    /// A chip's name label was read, or could not be.
    ChipProbed(ChipProbe),
    /// The report was written.
    FrameWritten,
    /// The window is over.
    WindowMeasured(WindowReading),
    /// The text of the temperature input.
    TemperatureRead(String),
    /// The action in flight failed.
    Failed,
}

/// What the caller is asked to do next.
#[derive(Debug, PartialEq, Eq)]
pub enum Action {
    /// List the attached HID peripherals.
    EnumerateDevices,
    /// Open the peripheral at this place in the list, which carries these
    /// identifiers.
    OpenDevice { index: usize, vendor_id: u16, product_id: u16 },
    /// Read the chip name label at this path.
    ProbeChip { path: String },
    /// Write this report to the peripheral.
    WriteFrame(DevicePacket),
    /// Take the energy counter at this path and a CPU snapshot, sleep for
    /// the interval, and take both again.
    MeasureWindow { energy_path: String, interval_ms: u64 },
    /// Read the temperature input at this path.
    ReadTemperature { path: String },
    /// Tell the operator and end the process.
    Exit { error: MonitorError },
}

/// An action, with its texts and bytes as sequences.
pub enum ActionView {
    EnumerateDevices,
    OpenDevice { index: usize, vendor_id: u16, product_id: u16 },
    ProbeChip { path: Seq<char> },
    WriteFrame(Seq<u8>),
    MeasureWindow { energy_path: Seq<char>, interval_ms: u64 },
    ReadTemperature { path: Seq<char> },
    Exit { error: MonitorError },
}

impl View for Action {
    type V = ActionView;

    open spec fn view(&self) -> ActionView {
        match *self {
            Action::EnumerateDevices => ActionView::EnumerateDevices,
            Action::OpenDevice { index, vendor_id, product_id } => ActionView::OpenDevice {
                index,
                vendor_id,
                product_id,
            },
            Action::ProbeChip { path } => ActionView::ProbeChip { path: path@ },
            Action::WriteFrame(packet) => ActionView::WriteFrame(packet@),
            Action::MeasureWindow { energy_path, interval_ms } => ActionView::MeasureWindow {
                energy_path: energy_path@,
                interval_ms,
            },
            Action::ReadTemperature { path } => ActionView::ReadTemperature { path: path@ },
            Action::Exit { error } => ActionView::Exit { error },
        }
    }
}

/// The end of the loop with `error`.
pub open spec fn halt(error: MonitorError) -> (LoopState, ActionView) {
    (LoopState::Halted { error }, ActionView::Exit { error })
}

/// The window that a reading and the poll interval make, where both texts
/// are numbers.
pub open spec fn window_of(reading: WindowReading, interval_ms: u64) -> Option<MeasurementWindow> {
    match (read_energy_spec(reading.energy_start@), read_energy_spec(reading.energy_end@)) {
        (Some(start), Some(end)) => Some(
            MeasurementWindow {
                energy_start_uj: start as u64,
                energy_end_uj: end as u64,
                interval_ms,
                non_idle_bits: reading.non_idle_bits,
            },
        ),
        _ => None,
    }
}

/// The next window: what follows the handshake and every status report.
pub open spec fn open_window(config: MonitorConfig, chip: u64) -> (LoopState, ActionView) {
    (
        LoopState::Measuring { chip },
        ActionView::MeasureWindow { energy_path: energy_path_spec(), interval_ms: config.poll_ms },
    )
}

/// The transition of the loop: the state and the action that follow when
/// `event` ends the action in flight in `state`, or `None` where it cannot
/// end it.
///
/// - A failure halts the loop with the error that belongs to the action in
///   flight.
/// - The first peripheral with the vendor identifier is opened; without one
///   the loop halts.
/// - The chips are probed from index 0 upward until one has a recognised
///   name; a label that cannot be read ends the search.
/// - The two handshake reports are written in order, once.
/// - Then, for ever: a window is measured, the temperature is read, and a
///   status report with the values of that window is written.
pub open spec fn transition(config: MonitorConfig, state: LoopState, event: Event) -> Option<
    (LoopState, ActionView),
> {
    match (state, event) {
        (LoopState::Halted { .. }, _) => None,
        (_, Event::Failed) => Some(halt(state.failure_spec())),
        (LoopState::Created, Event::Started) => Some(
            (LoopState::Discovering, ActionView::EnumerateDevices),
        ),
        (LoopState::Discovering, Event::DevicesListed(devices)) => Some(
            match first_of_vendor(devices@, VENDOR_ID, 0) {
                Some(i) => (
                    LoopState::Opening,
                    ActionView::OpenDevice {
                        index: i as usize,
                        vendor_id: VENDOR_ID,
                        product_id: devices@[i].product_id,
                    },
                ),
                None => halt(MonitorError::DeviceNotFound),
            },
        ),
        (LoopState::Opening, Event::DeviceOpened) => Some(
            (LoopState::Probing { index: 0 }, ActionView::ProbeChip { path: chip_name_path_spec(0) }),
        ),
        (LoopState::Probing { index }, Event::ChipProbed(probe)) => Some(
            match probe {
                ChipProbe::Unreadable => halt(MonitorError::SensorNotFound),
                ChipProbe::Label(label) => if is_cpu_sensor_name_spec(label@) {
                    (LoopState::HandshakeFirst { chip: index }, ActionView::WriteFrame(first_init_frame()))
                } else if index == u64::MAX {
                    halt(MonitorError::SensorNotFound)
                } else {
                    (
                        LoopState::Probing { index: (index + 1) as u64 },
                        ActionView::ProbeChip { path: chip_name_path_spec((index + 1) as u64) },
                    )
                },
            },
        ),
        (LoopState::HandshakeFirst { chip }, Event::FrameWritten) => Some(
            (LoopState::HandshakeSecond { chip }, ActionView::WriteFrame(second_init_frame())),
        ),
        (LoopState::HandshakeSecond { chip }, Event::FrameWritten) => Some(
            open_window(config, chip),
        ),
        (LoopState::Measuring { chip }, Event::WindowMeasured(reading)) => Some(
            match window_of(reading, config.poll_ms) {
                Some(window) => if window.is_monotonic() {
                    (
                        LoopState::ReadingTemperature {
                            chip,
                            power_draw_watts: window.power_spec(),
                            utilization_percent: window.utilization_spec(),
                        },
                        ActionView::ReadTemperature { path: temperature_path_spec(chip) },
                    )
                } else {
                    halt(MonitorError::SensorReadFailure)
                },
                None => halt(MonitorError::SensorReadFailure),
            },
        ),
        (
            LoopState::ReadingTemperature { chip, power_draw_watts, utilization_percent },
            Event::TemperatureRead(text),
        ) => Some(
            match read_millidegrees_spec(text@) {
                Some(raw) => (
                    LoopState::Transmitting { chip },
                    ActionView::WriteFrame(
                        status_frame(
                            TelemetrySample {
                                utilization_percent,
                                power_draw_watts,
                                temperature_value: display_temperature_spec(raw as u32, config.unit),
                                unit: config.unit,
                            },
                        ),
                    ),
                ),
                None => halt(MonitorError::SensorReadFailure),
            },
        ),
        (LoopState::Transmitting { chip }, Event::FrameWritten) => Some(open_window(config, chip)),
        _ => None,
    }
}

/// The poll loop of one run.
#[derive(Clone, Copy, Debug, PartialEq, Eq, Structural)]
pub struct PollLoop {
    /// The settings of the run.
    pub config: MonitorConfig,
    /// Where the loop stands.
    pub state: LoopState,
}

impl PollLoop {
    /// A loop that has not started.
    pub fn new(config: MonitorConfig) -> (machine: PollLoop)
        ensures
            machine.config == config,
            machine.state == LoopState::Created,
    {
        PollLoop { config, state: LoopState::Created }
    }

    /// Ends the loop with `error`.
    fn halt(&mut self, error: MonitorError) -> (action: Action)
        ensures
            final(self).config == old(self).config,
            (final(self).state, action@) == halt(error),
    {
        self.state = LoopState::Halted { error };
        Action::Exit { error }
    }

    /// Opens the next measurement window.
    fn open_window(&mut self, chip: u64) -> (action: Action)
        ensures
            final(self).config == old(self).config,
            (final(self).state, action@) == open_window(old(self).config, chip),
    {
        self.state = LoopState::Measuring { chip };
        Action::MeasureWindow {
            energy_path: String::from_str(energy_path()),
            interval_ms: self.config.poll_ms,
        }
    }

    /// Takes the event that ended the action in flight and answers with the
    /// next action.
    ///
    /// Returns `None`, and leaves the loop as it is, if and only if the event
    /// cannot end the action in flight; a halted loop takes no event.
    pub fn step(&mut self, event: Event) -> (action: Option<Action>)
        ensures
            final(self).config == old(self).config,
            match transition(old(self).config, old(self).state, event) {
                Some((next, expected)) => {
                    &&& final(self).state == next
                    &&& action matches Some(a) && a@ == expected
                },
                None => final(self).state == old(self).state && action is None,
            },
    {
        let state = self.state;
        match (state, event) {
            (LoopState::Halted { .. }, _) => None,
            (_, Event::Failed) => Some(self.halt(state.failure())),
            (LoopState::Created, Event::Started) => {
                self.state = LoopState::Discovering;
                Some(Action::EnumerateDevices)
            },
            (LoopState::Discovering, Event::DevicesListed(devices)) => {
                match select_device(&devices, VENDOR_ID) {
                    Ok(i) => {
                        proof {
                            crate::device::lemma_first_of_vendor(devices@, VENDOR_ID, 0);
                        }
                        self.state = LoopState::Opening;
                        Some(
                            Action::OpenDevice {
                                index: i,
                                vendor_id: VENDOR_ID,
                                product_id: devices[i].product_id,
                            },
                        )
                    },
                    Err(error) => Some(self.halt(error)),
                }
            },
            (LoopState::Opening, Event::DeviceOpened) => {
                self.state = LoopState::Probing { index: 0 };
                Some(Action::ProbeChip { path: chip_name_path(0) })
            },
            (LoopState::Probing { index }, Event::ChipProbed(probe)) => {
                match probe {
                    ChipProbe::Unreadable => Some(self.halt(MonitorError::SensorNotFound)),
                    ChipProbe::Label(label) => {
                        if is_cpu_sensor_name(label.as_str()) {
                            self.state = LoopState::HandshakeFirst { chip: index };
                            Some(Action::WriteFrame(build_init_frames().0))
                        } else if index == u64::MAX {
                            Some(self.halt(MonitorError::SensorNotFound))
                        } else {
                            self.state = LoopState::Probing { index: index + 1 };
                            Some(Action::ProbeChip { path: chip_name_path(index + 1) })
                        }
                    },
                }
            },
            (LoopState::HandshakeFirst { chip }, Event::FrameWritten) => {
                self.state = LoopState::HandshakeSecond { chip };
                Some(Action::WriteFrame(build_init_frames().1))
            },
            (LoopState::HandshakeSecond { chip }, Event::FrameWritten) => {
                Some(self.open_window(chip))
            },
            (LoopState::Measuring { chip }, Event::WindowMeasured(reading)) => {
                let start = read_energy(reading.energy_start.as_str());
                let end = read_energy(reading.energy_end.as_str());
                match (start, end) {
                    (Ok(energy_start_uj), Ok(energy_end_uj)) => {
                        let window = MeasurementWindow {
                            energy_start_uj,
                            energy_end_uj,
                            interval_ms: self.config.poll_ms,
                            non_idle_bits: reading.non_idle_bits,
                        };
                        match window.power_draw_watts() {
                            Some(power_draw_watts) => {
                                self.state = LoopState::ReadingTemperature {
                                    chip,
                                    power_draw_watts,
                                    utilization_percent: window.utilization_percent(),
                                };
                                Some(Action::ReadTemperature { path: temperature_path(chip) })
                            },
                            None => Some(self.halt(MonitorError::SensorReadFailure)),
                        }
                    },
                    _ => Some(self.halt(MonitorError::SensorReadFailure)),
                }
            },
            (
                LoopState::ReadingTemperature { chip, power_draw_watts, utilization_percent },
                Event::TemperatureRead(text),
            ) => {
                match read_temperature(text.as_str(), self.config.unit) {
                    Ok(temperature_value) => {
                        let sample = TelemetrySample {
                            utilization_percent,
                            power_draw_watts,
                            temperature_value,
                            unit: self.config.unit,
                        };
                        self.state = LoopState::Transmitting { chip };
                        Some(Action::WriteFrame(build_status_frame(&sample)))
                    },
                    Err(error) => Some(self.halt(error)),
                }
            },
            (LoopState::Transmitting { chip }, Event::FrameWritten) => {
                Some(self.open_window(chip))
            },
            _ => None,
        }
    }
}

/// The state after a row of events, and the actions they were answered
/// with. Events that cannot end the action in flight are passed over, as
/// `step` passes over them.
pub open spec fn run(config: MonitorConfig, state: LoopState, events: Seq<Event>) -> (
    LoopState,
    Seq<ActionView>,
)
    decreases events.len(),
{
    if events.len() == 0 {
        (state, Seq::empty())
    } else {
        let (before, actions) = run(config, state, events.drop_last());
        match transition(config, before, events.last()) {
            Some((next, action)) => (next, actions.push(action)),
            None => (before, actions),
        }
    }
}

/// The reports among `actions`, in the order in which they are written.
pub open spec fn frames_written(actions: Seq<ActionView>) -> Seq<Seq<u8>>
    decreases actions.len(),
{
    if actions.len() == 0 {
        Seq::empty()
    } else {
        let earlier = frames_written(actions.drop_last());
        match actions.last() {
            ActionView::WriteFrame(bytes) => earlier.push(bytes),
            _ => earlier,
        }
    }
}

/// `bytes` is the status report of some sample.
pub open spec fn is_status_frame(bytes: Seq<u8>) -> bool {
    exists|sample: TelemetrySample| bytes == #[trigger] status_frame(sample)
}

/// What the device may be sent: the first handshake report, then the
/// second, then status reports only.
pub open spec fn follows_protocol(frames: Seq<Seq<u8>>) -> bool {
    &&& frames.len() > 0 ==> frames[0] == first_init_frame()
    &&& frames.len() > 1 ==> frames[1] == second_init_frame()
    &&& forall|k: int| 2 <= k < frames.len() ==> is_status_frame(#[trigger] frames[k])
}

/// How many reports have been written once the loop stands in `state`, as
/// far as the state tells: none before the handshake, one and two within it,
/// two or more after it.
pub open spec fn frames_agree(state: LoopState, frames: Seq<Seq<u8>>) -> bool {
    match state {
        LoopState::Created
        | LoopState::Discovering
        | LoopState::Opening
        | LoopState::Probing { .. } => frames.len() == 0,
        LoopState::HandshakeFirst { .. } => frames.len() == 1,
        LoopState::HandshakeSecond { .. } => frames.len() == 2,
        LoopState::Measuring { .. } | LoopState::ReadingTemperature { .. } => frames.len() >= 2,
        LoopState::Transmitting { .. } => frames.len() >= 3,
        LoopState::Halted { .. } => true,
    }
}

/// Whatever the caller reports, in whatever order, the loop keeps to the
/// protocol: the reports it asks to be written are the first handshake
/// report, then the second, and after these status reports only. A loop
/// that reached the steady state has written both handshake reports, and it
/// asks for the process to end exactly when it halts.
pub proof fn lemma_run_follows_protocol(config: MonitorConfig, events: Seq<Event>)
    ensures
        ({
            let (state, actions) = run(config, LoopState::Created, events);
            &&& follows_protocol(frames_written(actions))
            &&& frames_agree(state, frames_written(actions))
            &&& state is Halted <==> actions.len() > 0 && actions.last() is Exit
        }),
    decreases events.len(),
{
    if events.len() > 0 {
        lemma_run_follows_protocol(config, events.drop_last());
        let (before, earlier) = run(config, LoopState::Created, events.drop_last());
        let frames = frames_written(earlier);
        match transition(config, before, events.last()) {
            Some((next, action)) => {
                let actions = earlier.push(action);
                assert(actions.drop_last() =~= earlier);
                assert(actions.last() == action);
                match action {
                    ActionView::WriteFrame(bytes) => {
                        let after = frames.push(bytes);
                        assert(frames_written(actions) == after);
                        if next is Transmitting {
                            assert(is_status_frame(bytes));
                        }
                        assert forall|k: int| 2 <= k < after.len() implies is_status_frame(
                            #[trigger] after[k],
                        ) by {
                            if k < frames.len() {
                                assert(after[k] == frames[k]);
                            }
                        }
                    },
                    _ => {
                        assert(frames_written(actions) == frames);
                    },
                }
            },
            None => {},
        }
    }
}

/// The events that report the probes of the chips, in order.
pub open spec fn probe_events(probes: Seq<ChipProbe>) -> Seq<Event> {
    Seq::new(probes.len(), |i: int| Event::ChipProbed(probes[i]))
}

/// Probing chip by chip finds what a scan of the list finds. After the
/// probes of the chips from index 0 on, the loop has taken the first CPU
/// sensor of the list for its chip, or has halted at the first label that
/// could not be read, or is still looking, at the index after the last.
pub proof fn lemma_probing_agrees_with_scan(config: MonitorConfig, probes: Seq<ChipProbe>)
    requires
        probes.len() <= usize::MAX,
    ensures
        run(config, LoopState::Probing { index: 0 }, probe_events(probes)).0 == match scan_from(
            probes,
            0,
        ) {
            ScanOutcome::Found(i) => LoopState::HandshakeFirst { chip: i as u64 },
            ScanOutcome::Unreadable(_) => LoopState::Halted {
                error: MonitorError::SensorNotFound,
            },
            ScanOutcome::Exhausted => LoopState::Probing { index: probes.len() as u64 },
        },
    decreases probes.len(),
{
    if probes.len() > 0 {
        let shorter = probes.drop_last();
        let events = probe_events(probes);
        lemma_probing_agrees_with_scan(config, shorter);
        assert(events.drop_last() =~= probe_events(shorter));
        assert(events.last() == Event::ChipProbed(probes.last()));
        if shorter.len() > 0 {
            lemma_scan_one_more(probes, 0);
        } else {
            assert(scan_from(probes, 1) == ScanOutcome::Exhausted);
        }
    }
}

} // verus!
