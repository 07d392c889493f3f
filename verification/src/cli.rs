//! The command-line actions on DPI stages.

use vstd::prelude::*;

verus! {

/// What the `dpi` command does when given an action.
#[derive(Debug, Clone, Copy, PartialEq, Eq)]
pub enum DpiAction {
    /// Set stage `stage` (1 to 6) to `dpi`, with `y_dpi` for the Y axis when given.
    SetDpi { stage: u8, dpi: u16, y_dpi: Option<u16> },
    /// Make stage `stage` (1 to 6) the active one.
    Active { stage: u8 },
}

} // verus!
