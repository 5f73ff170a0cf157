//! Device resolution: which one device a command works on.

use crate::devices::{
    discovered, entry_lines, lemma_no_qualifying_line, lemma_one_qualifying_line,
    lemma_two_qualifying_lines, parse_devices, qualifies, records_of, serial_of, DeviceRecord,
    DeviceView,
};
use vstd::prelude::*;
use vstd::string::*;

verus! {

/// Why no target device could be named.
#[derive(Debug, Clone, Copy, PartialEq, Eq, Structural)]
pub enum ResolveError {
    /// The scan found no device of the supported family.
    NoDeviceFound,
    /// The scan found more than one: the caller has to name a serial.
    AmbiguousDevice,
}

/// The target device, given the serial that the caller named, if any, and the
/// records of a scan. A named serial is taken as it is, whatever the scan
/// holds; without one the scan has to hold exactly one device.
pub open spec fn resolution(explicit: Option<Seq<char>>, found: Seq<DeviceView>) -> Result<
    Seq<char>,
    ResolveError,
> {
    match explicit {
        Some(serial) => Ok(serial),
        None => if found.len() == 0 {
            Err(ResolveError::NoDeviceFound)
        } else if found.len() == 1 {
            Ok(found[0].serial)
        } else {
            Err(ResolveError::AmbiguousDevice)
        },
    }
}

/// The serial that an optional string slice names.
pub open spec fn named(explicit: Option<&str>) -> Option<Seq<char>> {
    match explicit {
        Some(serial) => Some(serial@),
        None => None,
    }
}

/// A resolution as plain values.
pub open spec fn target_of(target: Result<String, ResolveError>) -> Result<Seq<char>, ResolveError> {
    match target {
        Ok(serial) => Ok(serial@),
        Err(error) => Err(error),
    }
}

/// Whether a scan is needed to name the target: only where the caller named
/// no serial.
pub fn needs_scan(explicit: Option<&str>) -> (needed: bool)
    ensures
        needed == (explicit is None),
{
    explicit.is_none()
}

/// Names the target device among the records of a scan.
pub fn resolve_target(explicit: Option<&str>, devices: &Vec<DeviceRecord>) -> (target: Result<
    String,
    ResolveError,
>)
    ensures
        target_of(target) == resolution(named(explicit), records_of(devices@)),
{
    match explicit {
        Some(serial) => Ok(serial.to_owned()),
        None => {
            if devices.len() == 0 {
                Err(ResolveError::NoDeviceFound)
            } else if devices.len() == 1 {
                Ok(devices[0].serial.clone())
            } else {
                Err(ResolveError::AmbiguousDevice)
            }
        },
    }
}

/// Names the target device from the bridge's device listing.
pub fn resolve_from_listing(explicit: Option<&str>, raw: &str) -> (target: Result<
    String,
    ResolveError,
>)
    ensures
        target_of(target) == resolution(named(explicit), discovered(raw@)),
{
    match explicit {
        Some(serial) => Ok(serial.to_owned()),
        None => {
            let devices = parse_devices(raw);
            resolve_target(None, &devices)
        },
    }
}

/// A listing without a qualifying line holds no device: the scan is empty and
/// resolution without a named serial reports that no device was found.
pub proof fn lemma_empty_scan(text: Seq<char>)
    requires
        forall|k: int| 0 <= k < entry_lines(text).len() ==> !qualifies(#[trigger] entry_lines(text)[k]),
    ensures
        discovered(text) == Seq::<DeviceView>::empty(),
        resolution(None, discovered(text)) == Err::<Seq<char>, ResolveError>(
            ResolveError::NoDeviceFound,
        ),
{
    lemma_no_qualifying_line(text);
}

/// With exactly one qualifying line and no named serial, resolution picks the
/// serial of that line.
pub proof fn lemma_single_device_is_selected(text: Seq<char>, k: int)
    requires
        0 <= k < entry_lines(text).len(),
        qualifies(entry_lines(text)[k]),
        forall|j: int|
            0 <= j < entry_lines(text).len() && j != k ==> !qualifies(#[trigger] entry_lines(text)[j]),
    ensures
        resolution(None, discovered(text)) == Ok::<Seq<char>, ResolveError>(
            serial_of(entry_lines(text)[k]),
        ),
{
    lemma_one_qualifying_line(text, k);
}

/// With two qualifying lines that name different devices and no named
/// serial, resolution is refused as ambiguous.
pub proof fn lemma_two_devices_are_ambiguous(text: Seq<char>, j: int, k: int)
    requires
        0 <= j < entry_lines(text).len(),
        0 <= k < entry_lines(text).len(),
        qualifies(entry_lines(text)[j]),
        qualifies(entry_lines(text)[k]),
        serial_of(entry_lines(text)[j]) != serial_of(entry_lines(text)[k]),
    ensures
        resolution(None, discovered(text)) == Err::<Seq<char>, ResolveError>(
            ResolveError::AmbiguousDevice,
        ),
{
    lemma_two_qualifying_lines(text, j, k);
}

/// A named serial is the target whatever the scan holds.
pub proof fn lemma_named_serial_wins(serial: Seq<char>, found: Seq<DeviceView>)
    ensures
        resolution(Some(serial), found) == Ok::<Seq<char>, ResolveError>(serial),
{
}

} // verus!
