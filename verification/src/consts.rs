//! Protocol constants shared by the report builders and the transport.

use vstd::prelude::*;

verus! {

/// USB vendor id of WLmouse devices.
pub const WL_VID: u16 = 0x36A7;

/// Report id that prefixes every feature report on the wire.
pub const REPORT_ID: u8 = 0;

/// Size in bytes of a report, without its report id.
pub const REPORT_SIZE: usize = 64;

/// Status byte of a response that answers the command it echoes.
pub const RESPONSE_OK: u8 = 0xA1;

/// Status byte of a response from a mouse that is asleep.
pub const RESPONSE_SLEEPING: u8 = 0xA0;

/// Number of attempts the transport makes before it gives up.
pub const MAX_RETRIES: u8 = 10;

/// Raw sleep-time value that means "no sleep".
pub const SLEEP_OFF: u16 = 0x0000;

/// Raw sleep-time values from here up mean "sleep disabled" (turbo mode).
pub const SLEEP_DISABLED: u16 = 0xFF00;

/// Largest raw sleep-time value; written to disable sleep.
pub const SLEEP_MAX_VAL: u16 = 0xFFFF;

} // verus!
