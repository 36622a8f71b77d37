//! Choosing the display among the attached HID peripherals.

use vstd::prelude::*;
use crate::error::MonitorError;

verus! {

/// The vendor identifier of the display.
pub const VENDOR_ID: u16 = 0x3633;

/// What the choice reads of one attached peripheral.
#[derive(Clone, Copy, Debug, PartialEq, Eq, Structural)]
pub struct DeviceDescriptor {
    pub vendor_id: u16,
    pub product_id: u16,
}

/// The index of the first peripheral at or after `from` that carries
/// `vendor_id`, if there is one.
pub open spec fn first_of_vendor(devices: Seq<DeviceDescriptor>, vendor_id: u16, from: int) -> Option<
    int,
>
    decreases devices.len() - from,
{
    if from < 0 || from >= devices.len() {
        None
    } else if devices[from].vendor_id == vendor_id {
        Some(from)
    } else {
        first_of_vendor(devices, vendor_id, from + 1)
    }
}

/// Selects the peripheral to open: the first one, in the order of
/// discovery, whose vendor identifier is `vendor_id`.
///
/// Fails with `DeviceNotFound` if and only if no peripheral carries it.
pub fn select_device(devices: &Vec<DeviceDescriptor>, vendor_id: u16) -> (selected: Result<
    usize,
    MonitorError,
>)
    ensures
        match first_of_vendor(devices@, vendor_id, 0) {
            Some(i) => selected == Ok::<usize, MonitorError>(i as usize),
            None => selected == Err::<usize, MonitorError>(MonitorError::DeviceNotFound),
        },
{
    let mut i: usize = 0;
    while i < devices.len()
        invariant
            i <= devices.len(),
            first_of_vendor(devices@, vendor_id, 0) == first_of_vendor(
                devices@,
                vendor_id,
                i as int,
            ),
        decreases devices.len() - i,
    {
        if devices[i].vendor_id == vendor_id {
            return Ok(i);
        }
        i = i + 1;
    }
    Err(MonitorError::DeviceNotFound)
}

/// The selected peripheral carries the vendor identifier and none before it
/// does; nothing is selected only where none carries it.
pub proof fn lemma_first_of_vendor(devices: Seq<DeviceDescriptor>, vendor_id: u16, from: int)
    requires
        0 <= from,
    ensures
        match first_of_vendor(devices, vendor_id, from) {
            Some(i) => {
                &&& from <= i < devices.len()
                &&& devices[i].vendor_id == vendor_id
                &&& forall|j: int| from <= j < i ==> (#[trigger] devices[j]).vendor_id != vendor_id
            },
            None => forall|j: int|
                from <= j < devices.len() ==> (#[trigger] devices[j]).vendor_id != vendor_id,
        },
    decreases devices.len() - from,
{
    if from < devices.len() && devices[from].vendor_id != vendor_id {
        lemma_first_of_vendor(devices, vendor_id, from + 1);
    }
}

} // verus!
