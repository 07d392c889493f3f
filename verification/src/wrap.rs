//! Decisions of the `wrap` command: which settings to change before running a
//! program, and which writes put them back afterwards. The caller reads the
//! device, performs the writes and runs the program; the lift-off distance,
//! which the tool handles as a float, is left to the caller.

use vstd::prelude::*;

verus! {

/// Settings the user asked `wrap` to apply.
pub struct WrapTargets {
    pub rate: Option<u16>,
    pub dpi: Option<u16>,
    pub debounce: Option<u8>,
}

/// The settings `wrap` read from the device before changing them: the polling
/// rate, the active stage (from 0) with all DPI stages, and the debounce time;
/// each one only where the matching target is given.
pub struct SavedSettings {
    pub rate: Option<u16>,
    pub dpi: Option<(u8, Vec<(u16, u16)>)>,
    pub debounce: Option<u8>,
}

/// Writes to make to the device; `None` leaves a setting alone.
pub struct SettingWrites {
    pub rate: Option<u16>,
    pub dpi_stages: Option<Vec<(u16, u16)>>,
    pub debounce: Option<u8>,
}

impl View for WrapTargets {
    type V = (Option<u16>, Option<u16>, Option<u8>);

    open spec fn view(&self) -> Self::V {
        (self.rate, self.dpi, self.debounce)
    }
}

impl View for SavedSettings {
    type V = (Option<u16>, Option<(u8, Seq<(u16, u16)>)>, Option<u8>);

    open spec fn view(&self) -> Self::V {
        (
            self.rate,
            match self.dpi {
                Some((active, stages)) => Some((active, stages@)),
                None => None,
            },
            self.debounce,
        )
    }
}

impl View for SettingWrites {
    type V = (Option<u16>, Option<Seq<(u16, u16)>>, Option<u8>);

    open spec fn view(&self) -> Self::V {
        (
            self.rate,
            match self.dpi_stages {
                Some(stages) => Some(stages@),
                None => None,
            },
            self.debounce,
        )
    }
}

/// The polling rate `wrap` applies: the one asked for, 8000 Hz by default.
pub open spec fn wrap_rate_of(rate: Option<u16>) -> u16 {
    match rate {
        Some(r) => r,
        None => 8000,
    }
}

/// The polling rate `wrap` applies.
pub fn wrap_rate(rate: Option<u16>) -> (r: u16)
    ensures
        r == wrap_rate_of(rate),
{
    match rate {
        Some(r) => r,
        None => 8000,
    }
}

/// The X DPI of the active stage, or 0 when there is no such stage.
pub open spec fn current_dpi(active: u8, stages: Seq<(u16, u16)>) -> u16 {
    if active < stages.len() {
        stages[active as int].0
    } else {
        0
    }
}

/// All stages set to `dpi` on both axes.
pub open spec fn uniform_stages(n: nat, dpi: u16) -> Seq<(u16, u16)> {
    Seq::new(n, |i: int| (dpi, dpi))
}

/// The writes `wrap` makes before running the program: each setting that
/// differs from its target is set to it; the DPI stages are all set to the
/// target DPI when the active stage's X DPI differs from it.
pub open spec fn apply_writes_of(
    t: (Option<u16>, Option<u16>, Option<u8>),
    o: (Option<u16>, Option<(u8, Seq<(u16, u16)>)>, Option<u8>),
) -> (Option<u16>, Option<Seq<(u16, u16)>>, Option<u8>) {
    (
        match (t.0, o.0) {
            (Some(r), Some(orig)) => if orig != r {
                Some(r)
            } else {
                None
            },
            _ => None,
        },
        match (t.1, o.1) {
            (Some(d), Some((active, stages))) => if current_dpi(active, stages) != d {
                Some(uniform_stages(stages.len(), d))
            } else {
                None
            },
            _ => None,
        },
        match (t.2, o.2) {
            (Some(d), Some(orig)) => if orig != d {
                Some(d)
            } else {
                None
            },
            _ => None,
        },
    )
}

/// The writes `wrap` makes after the program: each setting it changed is put
/// back to the value it read.
pub open spec fn restore_writes_of(
    t: (Option<u16>, Option<u16>, Option<u8>),
    o: (Option<u16>, Option<(u8, Seq<(u16, u16)>)>, Option<u8>),
) -> (Option<u16>, Option<Seq<(u16, u16)>>, Option<u8>) {
    (
        match (t.0, o.0) {
            (Some(r), Some(orig)) => if orig != r {
                Some(orig)
            } else {
                None
            },
            _ => None,
        },
        match (t.1, o.1) {
            (Some(d), Some((active, stages))) => if current_dpi(active, stages) != d {
                Some(stages)
            } else {
                None
            },
            _ => None,
        },
        match (t.2, o.2) {
            (Some(d), Some(orig)) => if orig != d {
                Some(orig)
            } else {
                None
            },
            _ => None,
        },
    )
}

fn copy_stages(stages: &Vec<(u16, u16)>) -> (copy: Vec<(u16, u16)>)
    ensures
        copy@ == stages@,
{
    let mut copy: Vec<(u16, u16)> = Vec::new();
    let mut i: usize = 0;
    while i < stages.len()
        invariant
            i <= stages@.len(),
            copy@ == stages@.subrange(0, i as int),
        decreases stages@.len() - i,
    {
        copy.push(stages[i]);
        i = i + 1;
        assert(copy@ =~= stages@.subrange(0, i as int));
    }
    assert(copy@ =~= stages@);
    copy
}

fn fill_stages(n: usize, dpi: u16) -> (stages: Vec<(u16, u16)>)
    ensures
        stages@ == uniform_stages(n as nat, dpi),
{
    let mut stages: Vec<(u16, u16)> = Vec::new();
    let mut i: usize = 0;
    while i < n
        invariant
            i <= n,
            stages@ == uniform_stages(i as nat, dpi),
        decreases n - i,
    {
        stages.push((dpi, dpi));
        i = i + 1;
        assert(stages@ =~= uniform_stages(i as nat, dpi));
    }
    stages
}

/// The X DPI of the active stage, or 0 when there is no such stage.
pub fn active_stage_dpi(active: u8, stages: &[(u16, u16)]) -> (dpi: u16)
    ensures
        dpi == current_dpi(active, stages@),
{
    if (active as usize) < stages.len() {
        stages[active as usize].0
    } else {
        0
    }
}

fn stage_differs(active: u8, stages: &Vec<(u16, u16)>, dpi: u16) -> (differs: bool)
    ensures
        differs == (current_dpi(active, stages@) != dpi),
{
    active_stage_dpi(active, stages.as_slice()) != dpi
}

/// The writes to make before running the program.
pub fn wrap_writes(targets: &WrapTargets, saved: &SavedSettings) -> (w: SettingWrites)
    ensures
        w@ == apply_writes_of(targets@, saved@),
{
    let rate = match (targets.rate, saved.rate) {
        (Some(r), Some(orig)) => if orig != r {
            Some(r)
        } else {
            None
        },
        _ => None,
    };
    let dpi_stages = match (targets.dpi, &saved.dpi) {
        (Some(d), Some((active, stages))) => if stage_differs(*active, stages, d) {
            Some(fill_stages(stages.len(), d))
        } else {
            None
        },
        _ => None,
    };
    let debounce = match (targets.debounce, saved.debounce) {
        (Some(d), Some(orig)) => if orig != d {
            Some(d)
        } else {
            None
        },
        _ => None,
    };
    SettingWrites { rate, dpi_stages, debounce }
}

/// The writes that put back what `wrap_writes` changed.
pub fn restore_writes(targets: &WrapTargets, saved: &SavedSettings) -> (w: SettingWrites)
    ensures
        w@ == restore_writes_of(targets@, saved@),
{
    let rate = match (targets.rate, saved.rate) {
        (Some(r), Some(orig)) => if orig != r {
            Some(orig)
        } else {
            None
        },
        _ => None,
    };
    let dpi_stages = match (targets.dpi, &saved.dpi) {
        (Some(d), Some((active, stages))) => if stage_differs(*active, stages, d) {
            Some(copy_stages(stages))
        } else {
            None
        },
        _ => None,
    };
    let debounce = match (targets.debounce, saved.debounce) {
        (Some(d), Some(orig)) => if orig != d {
            Some(orig)
        } else {
            None
        },
        _ => None,
    };
    SettingWrites { rate, dpi_stages, debounce }
}

} // verus!
