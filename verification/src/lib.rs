//! Verified core of a command-line tool for WLmouse gaming mice: the HID
//! feature-report protocol, device selection, the rules for settings, and the
//! decisions of the commands that the tool runs against a device.

pub mod cli;
pub mod consts;
pub mod devices;
pub mod hyprland;
pub mod laws;
pub mod report;
pub mod settings;
pub mod text;
pub mod transport;
pub mod types;
pub mod wrap;
