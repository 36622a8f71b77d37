//! The 64-byte reports of the display: layout, checksum and builders.
//!
//! | offset | field |
//! |---|---|
//! | 0 | report header |
//! | 1 | command class |
//! | 2, 3 | sub-command, sub-sub-command |
//! | 4 | frame kind |
//! | 5 | stage or operation |
//! | 6 | argument count |
//! | 7 | mode |
//! | 8 | init payload, or power high byte |
//! | 8..=9 | power in watts, big-endian (status) |
//! | 10 | unit flag (status) |
//! | 11..=14 | temperature, binary32 big-endian (status) |
//! | 15 | utilization in percent (status) |
//! | 16 | checksum over bytes 1..=15 (status) |
//! | 17 | terminator |
//! | 18..=63 | zero |

use vstd::prelude::*;
use crate::ieee754::{binary32_of_u8, encode_binary32, lemma_binary32_of_u8_is_injective};
use crate::telemetry::TelemetrySample;

verus! {

/// Length of every report.
pub const PACKET_LEN: usize = 64;

/// Byte 0 of every report.
pub const REPORT_HEADER: u8 = 16;

/// Byte 1 of every report.
pub const COMMAND_CLASS: u8 = 104;

/// Byte 2 of every report.
pub const SUB_COMMAND: u8 = 1;

/// Byte 3 of every report.
pub const SUB_SUB_COMMAND: u8 = 1;

/// Byte 4 of both handshake reports.
pub const FRAME_KIND_INIT: u8 = 2;

/// Byte 4 of a status report.
pub const FRAME_KIND_STATUS: u8 = 11;

/// Byte 5 of the first handshake report.
pub const INIT_STAGE_FIRST: u8 = 3;

/// Byte 5 of the second handshake report.
pub const INIT_STAGE_SECOND: u8 = 2;

/// Byte 6 of both handshake reports.
pub const INIT_ARGUMENT_COUNT: u8 = 1;

/// Byte 7 of the first handshake report.
pub const INIT_MODE_FIRST: u8 = 112;

/// Byte 7 of the second handshake report.
pub const INIT_MODE_SECOND: u8 = 111;

/// Byte 8 of both handshake reports.
pub const INIT_PAYLOAD: u8 = 22;

/// Byte 5 of a status report.
pub const STATUS_OPERATION: u8 = 1;

/// Byte 6 of a status report.
pub const STATUS_ARGUMENT_COUNT: u8 = 2;

/// Byte 7 of a status report.
pub const STATUS_MODE: u8 = 5;

/// Byte 17 of every report.
pub const TERMINATOR: u8 = 22;

/// Offset of the checksum byte.
pub const CHECKSUM_OFFSET: usize = 16;

/// Offset of the terminator byte.
pub const TERMINATOR_OFFSET: usize = 17;

/// How many bytes at the start of a report carry meaning; the rest is zero.
pub const MEANINGFUL_LEN: usize = 18;

/// One report, ready to be written to the device.
#[derive(Clone, Copy, Debug, PartialEq, Eq)]
pub struct DevicePacket {
    pub bytes: [u8; 64],
}

impl View for DevicePacket {
    type V = Seq<u8>;

    open spec fn view(&self) -> Seq<u8> {
        self.bytes@
    }
}

/// The sum of `bytes[from..to]`.
pub open spec fn byte_sum(bytes: Seq<u8>, from: int, to: int) -> int
    decreases to - from,
{
    if from >= to {
        0
    } else {
        byte_sum(bytes, from, to - 1) + bytes[to - 1]
    }
}

/// The checksum of a report: the sum of its bytes 1 to 15, modulo 256.
pub open spec fn checksum_of(bytes: Seq<u8>) -> u8 {
    (byte_sum(bytes, 1, 16) % 256) as u8
}

/// `x` as two bytes, most significant first.
pub open spec fn be_bytes_u16(x: u16) -> Seq<u8> {
    seq![(x / 0x100) as u8, (x % 0x100) as u8]
}

/// `x` as four bytes, most significant first.
pub open spec fn be_bytes_u32(x: u32) -> Seq<u8> {
    seq![
        (x / 0x100_0000) as u8,
        (x / 0x1_0000 % 0x100) as u8,
        (x / 0x100 % 0x100) as u8,
        (x % 0x100) as u8,
    ]
}

/// `meaningful` followed by zeros up to the report length.
pub open spec fn zero_padded(meaningful: Seq<u8>) -> Seq<u8> {
    Seq::new(
        64,
        |i: int|
            if i < meaningful.len() {
                meaningful[i]
            } else {
                0u8
            },
    )
}

/// Bytes 0 to 3, the same in every report.
pub open spec fn common_header() -> Seq<u8> {
    seq![REPORT_HEADER, COMMAND_CLASS, SUB_COMMAND, SUB_SUB_COMMAND]
}

/// Bytes 0 to 15 of the status report for `sample`: everything the
/// checksum covers, and the report header before it.
pub open spec fn status_fields(sample: TelemetrySample) -> Seq<u8> {
    common_header() + seq![
        FRAME_KIND_STATUS,
        STATUS_OPERATION,
        STATUS_ARGUMENT_COUNT,
        STATUS_MODE,
    ] + be_bytes_u16(sample.power_draw_watts) + seq![sample.unit.flag_spec()] + be_bytes_u32(
        binary32_of_u8(sample.temperature_value),
    ) + seq![sample.utilization_percent]
}

/// The status report for `sample`: its fields, their checksum, the
/// terminator, and zeros.
pub open spec fn status_frame(sample: TelemetrySample) -> Seq<u8> {
    let fields = status_fields(sample);
    zero_padded(fields.push(checksum_of(fields)).push(TERMINATOR))
}

/// A handshake report with the given stage and mode bytes. Handshake
/// reports carry no checksum: bytes 9 to 16 are zero.
pub open spec fn init_frame(stage: u8, mode: u8) -> Seq<u8> {
    zero_padded(
        common_header() + seq![FRAME_KIND_INIT, stage, INIT_ARGUMENT_COUNT, mode, INIT_PAYLOAD],
    ).update(17, TERMINATOR)
}

/// What every report has in common.
pub open spec fn is_framed(bytes: Seq<u8>) -> bool {
    &&& bytes.len() == 64
    &&& bytes.subrange(0, 4) == common_header()
    &&& bytes[17] == TERMINATOR
    &&& forall|i: int| 18 <= i < 64 ==> bytes[i] == 0
}

/// The checksum byte of `bytes` agrees with the bytes it covers.
pub open spec fn checksum_holds(bytes: Seq<u8>) -> bool {
    bytes[16] == checksum_of(bytes)
}

/// `byte_sum` reads nothing outside `from..to`.
pub proof fn lemma_byte_sum_local(a: Seq<u8>, b: Seq<u8>, from: int, to: int)
    requires
        forall|i: int| from <= i < to ==> a[i] == b[i],
    ensures
        byte_sum(a, from, to) == byte_sum(b, from, to),
    decreases to - from,
{
    if from < to {
        lemma_byte_sum_local(a, b, from, to - 1);
    }
}

/// Computes the checksum of a report from its bytes 1 to 15.
pub fn checksum(bytes: &[u8; 64]) -> (sum: u8)
    ensures
        sum == checksum_of(bytes@),
{
    let mut total: u16 = 0;
    let mut i: usize = 1;
    while i < 16
        invariant
            1 <= i <= 16,
            total == byte_sum(bytes@, 1, i as int),
            total <= 255 * (i - 1),
        decreases 16 - i,
    {
        total = total + bytes[i] as u16;
        i = i + 1;
    }
    (total % 256) as u8
}

/// A report that holds the common header and nothing else yet.
fn header_only() -> (data: [u8; 64])
    ensures
        data@ == zero_padded(common_header()),
{
    let mut data: [u8; 64] = [0u8; 64];
    data[0] = REPORT_HEADER;
    data[1] = COMMAND_CLASS;
    data[2] = SUB_COMMAND;
    data[3] = SUB_SUB_COMMAND;
    assert(data@ =~= zero_padded(common_header()));
    data
}

/// Builds the status report for one sample.
///
/// The result is 64 bytes long, starts with the report header, carries the
/// terminator at offset 17 and, at offset 16, the checksum of its bytes 1 to
/// 15. The checksum is written after every field it covers.
pub fn build_status_frame(sample: &TelemetrySample) -> (packet: DevicePacket)
    ensures
        packet@ == status_frame(*sample),
        packet@.len() == 64,
        packet@[0] == REPORT_HEADER,
        packet@[17] == TERMINATOR,
        packet@[16] as int == byte_sum(packet@, 1, 16) % 256,
        is_framed(packet@),
        checksum_holds(packet@),
{
    let mut data = header_only();
    data[4] = FRAME_KIND_STATUS;
    data[5] = STATUS_OPERATION;
    data[6] = STATUS_ARGUMENT_COUNT;
    data[7] = STATUS_MODE;

    let power = sample.power_draw_watts;
    data[8] = (power / 0x100) as u8;
    data[9] = (power % 0x100) as u8;

    let temperature = encode_binary32(sample.temperature_value);
    data[10] = sample.unit.flag();
    data[11] = (temperature / 0x100_0000) as u8;
    data[12] = (temperature / 0x1_0000 % 0x100) as u8;
    data[13] = (temperature / 0x100 % 0x100) as u8;
    data[14] = (temperature % 0x100) as u8;

    data[15] = sample.utilization_percent;

    let ghost covered = data@;
    let sum = checksum(&data);
    data[16] = sum;
    data[17] = TERMINATOR;

    proof {
        let fields = status_fields(*sample);
        assert(fields.len() == 16);
        assert forall|i: int| 0 <= i < 16 implies fields[i] == covered[i] by {}
        lemma_byte_sum_local(fields, covered, 1, 16);
        lemma_byte_sum_local(data@, covered, 1, 16);
        assert(data@ =~= status_frame(*sample));
        assert(data@.subrange(0, 4) =~= common_header());
    }
    DevicePacket { bytes: data }
}

/// Builds one handshake report.
fn build_init_frame(stage: u8, mode: u8) -> (packet: DevicePacket)
    ensures
        packet@ == init_frame(stage, mode),
{
    let mut data = header_only();
    data[4] = FRAME_KIND_INIT;
    data[5] = stage;
    data[6] = INIT_ARGUMENT_COUNT;
    data[7] = mode;
    data[8] = INIT_PAYLOAD;
    data[17] = TERMINATOR;
    assert(data@ =~= init_frame(stage, mode));
    DevicePacket { bytes: data }
}

/// The first handshake report.
pub open spec fn first_init_frame() -> Seq<u8> {
    init_frame(INIT_STAGE_FIRST, INIT_MODE_FIRST)
}

/// The second handshake report.
pub open spec fn second_init_frame() -> Seq<u8> {
    init_frame(INIT_STAGE_SECOND, INIT_MODE_SECOND)
}

/// Builds the two handshake reports, in the order in which the device
/// expects them.
///
/// The function has no inputs and its result is fixed by the contract, so
/// any two calls return the same bytes.
pub fn build_init_frames() -> (frames: (DevicePacket, DevicePacket))
    ensures
        frames.0@ == first_init_frame(),
        frames.1@ == second_init_frame(),
        is_framed(frames.0@),
        is_framed(frames.1@),
{
    let first = build_init_frame(INIT_STAGE_FIRST, INIT_MODE_FIRST);
    let second = build_init_frame(INIT_STAGE_SECOND, INIT_MODE_SECOND);
    proof {
        lemma_init_frame_is_framed(INIT_STAGE_FIRST, INIT_MODE_FIRST);
        lemma_init_frame_is_framed(INIT_STAGE_SECOND, INIT_MODE_SECOND);
    }
    (first, second)
}

/// Every handshake report has the common frame.
pub proof fn lemma_init_frame_is_framed(stage: u8, mode: u8)
    ensures
        is_framed(init_frame(stage, mode)),
{
    assert(init_frame(stage, mode).subrange(0, 4) =~= common_header());
}

/// Every status report has the common frame and a checksum that holds.
pub proof fn lemma_status_frame_is_framed(sample: TelemetrySample)
    ensures
        is_framed(status_frame(sample)),
        checksum_holds(status_frame(sample)),
{
    let fields = status_fields(sample);
    let frame = status_frame(sample);
    assert(frame.subrange(0, 4) =~= common_header());
    assert forall|i: int| 1 <= i < 16 implies frame[i] == fields[i] by {}
    lemma_byte_sum_local(frame, fields, 1, 16);
}

/// A status report carries its sample whole: reports that are the same
/// bytes were built from the same sample.
pub proof fn lemma_status_frame_determines_sample(a: TelemetrySample, b: TelemetrySample)
    requires
        status_frame(a) == status_frame(b),
    ensures
        a == b,
{
    let fa = status_fields(a);
    let fb = status_fields(b);
    assert forall|i: int| 8 <= i < 16 implies fa[i] == fb[i] by {
        assert(status_frame(a)[i] == fa[i]);
        assert(status_frame(b)[i] == fb[i]);
    }
    let pa = a.power_draw_watts;
    let pb = b.power_draw_watts;
    assert(fa[8] == (pa / 0x100) as u8 && fa[9] == (pa % 0x100) as u8);
    assert(fb[8] == (pb / 0x100) as u8 && fb[9] == (pb % 0x100) as u8);
    assert(pa == pb);
    assert(fa[10] == a.unit.flag_spec() && fb[10] == b.unit.flag_spec());
    assert(a.unit == b.unit);
    assert(fa[15] == a.utilization_percent && fb[15] == b.utilization_percent);
    let ta = binary32_of_u8(a.temperature_value);
    let tb = binary32_of_u8(b.temperature_value);
    assert(fa[11] == (ta / 0x100_0000) as u8 && fb[11] == (tb / 0x100_0000) as u8);
    assert(fa[12] == (ta / 0x1_0000 % 0x100) as u8 && fb[12] == (tb / 0x1_0000 % 0x100) as u8);
    assert(fa[13] == (ta / 0x100 % 0x100) as u8 && fb[13] == (tb / 0x100 % 0x100) as u8);
    assert(fa[14] == (ta % 0x100) as u8 && fb[14] == (tb % 0x100) as u8);
    assert(ta == tb);
    lemma_binary32_of_u8_is_injective(a.temperature_value, b.temperature_value);
}

/// Changing one byte that the checksum covers breaks the checksum: a report
/// whose checksum holds stops passing the check once any single byte at an
/// offset from 1 to 15 takes another value.
pub proof fn lemma_checksum_detects_single_change(bytes: Seq<u8>, offset: int, value: u8)
    requires
        bytes.len() == 64,
        checksum_holds(bytes),
        1 <= offset <= 15,
        value != bytes[offset],
    ensures
        !checksum_holds(bytes.update(offset, value)),
        checksum_of(bytes.update(offset, value)) != checksum_of(bytes),
{
    let changed = bytes.update(offset, value);
    lemma_byte_sum_update(bytes, 1, 16, offset, value);
    assert(changed[16] == bytes[16]);
}

/// Replacing one byte inside `from..to` moves the sum by the difference.
pub proof fn lemma_byte_sum_update(bytes: Seq<u8>, from: int, to: int, offset: int, value: u8)
    requires
        0 <= from <= offset < to <= bytes.len(),
    ensures
        byte_sum(bytes.update(offset, value), from, to) == byte_sum(bytes, from, to) + value
            - bytes[offset],
    decreases to - from,
{
    let changed = bytes.update(offset, value);
    if offset == to - 1 {
        lemma_byte_sum_local(changed, bytes, from, to - 1);
    } else {
        lemma_byte_sum_update(bytes, from, to - 1, offset, value);
    }
}

impl DevicePacket {
    /// The bytes to write to the device.
    pub fn as_bytes(&self) -> (bytes: &[u8; 64])
        ensures
            bytes@ == self@,
    {
        &self.bytes
    }

    /// The bytes that carry meaning: the first eighteen.
    pub fn meaningful(&self) -> (bytes: Vec<u8>)
        ensures
            bytes@ == self@.subrange(0, 18),
    {
        let mut bytes: Vec<u8> = Vec::new();
        let mut i: usize = 0;
        while i < MEANINGFUL_LEN
            invariant
                i <= 18,
                bytes@ == self@.subrange(0, i as int),
            decreases 18 - i,
        {
            bytes.push(self.bytes[i]);
            assert(bytes@ =~= self@.subrange(0, i as int + 1));
            i = i + 1;
        }
        bytes
    }

    /// Recomputes the checksum and compares it with the byte at offset 16.
    pub fn checksum_is_consistent(&self) -> (ok: bool)
        ensures
            ok == checksum_holds(self@),
    {
        self.bytes[CHECKSUM_OFFSET] == checksum(&self.bytes)
    }
}

} // verus!
