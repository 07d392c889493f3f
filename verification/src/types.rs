//! The records the tool reports: listed devices, device information, DPI stages.

use vstd::prelude::*;

use crate::consts::{SLEEP_DISABLED, SLEEP_OFF};

verus! {

/// A connected WLmouse device.
pub struct DeviceListItem {
    pub name: String,
    pub pid: u16,
    pub path: String,
}

/// What the tool reports about a device.
pub struct DeviceInfo {
    pub name: String,
    pub firmware: String,
    pub dongle_firmware: Option<String>,
    pub battery_percent: Option<u8>,
    pub charging: Option<bool>,
    pub serial_number: Option<String>,
    pub active_profile: u8,
}

/// One DPI stage and whether it is the active one.
#[derive(Debug, Clone, Copy, PartialEq, Eq)]
pub struct DpiStage {
    pub x: u16,
    pub y: u16,
    pub active: bool,
}

/// The DPI stages, marking as active the one whose index (taken modulo 256,
/// as a byte) is `active`.
pub fn dpi_stages_from_raw(active: u8, stages: &[(u16, u16)]) -> (list: Vec<DpiStage>)
    ensures
        list@.len() == stages@.len(),
        forall|i: int|
            0 <= i < stages@.len() ==> #[trigger] list@[i] == (DpiStage {
                x: stages@[i].0,
                y: stages@[i].1,
                active: (i as u8) == active,
            }),
{
    let mut list: Vec<DpiStage> = Vec::new();
    let n = stages.len();
    let mut i: usize = 0;
    while i < n
        invariant
            n == stages@.len(),
            i <= n,
            list@.len() == i,
            forall|j: int|
                0 <= j < i ==> #[trigger] list@[j] == (DpiStage {
                    x: stages@[j].0,
                    y: stages@[j].1,
                    active: (j as u8) == active,
                }),
        decreases n - i,
    {
        let (x, y) = stages[i];
        list.push(DpiStage { x, y, active: i as u8 == active });
        i = i + 1;
    }
    list
}

/// The sleep time a raw value stands for, in seconds; 0 (no sleep) for the
/// "off" value and for the "disabled" range.
pub open spec fn sleep_seconds_of(raw: u16) -> u16 {
    if raw == SLEEP_OFF || raw >= SLEEP_DISABLED {
        0
    } else {
        raw
    }
}

/// The sleep time a raw value stands for, in seconds (0 means never).
pub fn normalize_sleep_time(raw: u16) -> (seconds: u16)
    ensures
        seconds == sleep_seconds_of(raw),
{
    if raw == SLEEP_OFF || raw >= SLEEP_DISABLED {
        0
    } else {
        raw
    }
}

} // verus!
