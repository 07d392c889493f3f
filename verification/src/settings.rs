//! The rules for the values a user may set: flags, polling rates, DPI stages
//! and sleep times.

use vstd::prelude::*;

use crate::consts::SLEEP_MAX_VAL;
use crate::text::str_eq;

verus! {

/// A value the user asked for that the device does not take.
#[derive(Debug, PartialEq, Eq)]
pub enum SettingError {
    /// Not one of the words for on or off; holds the word as given.
    InvalidFlag(String),
    /// A DPI stage number outside 1 to 6.
    InvalidStage(u8),
    /// A DPI stage the device does not have; holds the stage and how many it has.
    MissingStage(u8, usize),
    /// A polling rate that is not one of 125, 250, 500, 1000, 2000, 4000, 8000 Hz.
    InvalidPollingRate(u16),
    /// A sleep time that is neither 0 (off) nor 1 to 30 minutes.
    InvalidSleepTime(u16),
    /// An angle tuning outside -30 to 30.
    InvalidAngleTune(i8),
}

/// The lower-case form of a text, as `str::to_lowercase` gives it.
pub uninterp spec fn lowercase(s: Seq<char>) -> Seq<char>;

/// `std`'s `str::to_lowercase`.
///
/// Trusted: the contract names the result `lowercase` of the input's characters
/// and says nothing more about the Unicode case mapping it applies.
#[verifier::external_body]
fn to_lowercase(s: &str) -> (lower: String)
    ensures
        lower@ == lowercase(s@),
{
    s.to_lowercase()
}

/// The flag that a lower-case word stands for: `on`, `true`, `1`, `yes`,
/// `enable` mean on; `off`, `false`, `0`, `no`, `disable` mean off.
pub open spec fn flag_word(w: Seq<char>) -> Option<bool> {
    if w == "on"@ || w == "true"@ || w == "1"@ || w == "yes"@ || w == "enable"@ {
        Some(true)
    } else if w == "off"@ || w == "false"@ || w == "0"@ || w == "no"@ || w == "disable"@ {
        Some(false)
    } else {
        None
    }
}

/// The flag that a lower-case word stands for, if it is one of the flag words.
pub fn flag_from_word(w: &str) -> (flag: Option<bool>)
    ensures
        flag == flag_word(w@),
{
    if str_eq(w, "on") || str_eq(w, "true") || str_eq(w, "1") || str_eq(w, "yes") || str_eq(
        w,
        "enable",
    ) {
        Some(true)
    } else if str_eq(w, "off") || str_eq(w, "false") || str_eq(w, "0") || str_eq(w, "no")
        || str_eq(w, "disable") {
        Some(false)
    } else {
        None
    }
}

/// Reads an on/off word, in any letter case.
pub fn parse_bool(s: &str) -> (flag: Result<bool, SettingError>)
    ensures
        match flag_word(lowercase(s@)) {
            Some(b) => flag == Ok::<bool, SettingError>(b),
            None => flag matches Err(SettingError::InvalidFlag(given)) && given@ == s@,
        },
{
    let lower = to_lowercase(s);
    match flag_from_word(lower.as_str()) {
        Some(b) => Ok(b),
        None => Err(SettingError::InvalidFlag(s.to_owned())),
    }
}

/// The polling rates the device supports, in Hz.
pub open spec fn is_supported_rate(rate: u16) -> bool {
    rate == 125 || rate == 250 || rate == 500 || rate == 1000 || rate == 2000 || rate == 4000
        || rate == 8000
}

/// Checks a polling rate the user asked for.
pub fn check_polling_rate(rate: u16) -> (r: Result<(), SettingError>)
    ensures
        is_supported_rate(rate) ==> r == Ok::<(), SettingError>(()),
        !is_supported_rate(rate) ==> r == Err::<(), SettingError>(SettingError::InvalidPollingRate(rate)),
{
    if rate == 125 || rate == 250 || rate == 500 || rate == 1000 || rate == 2000 || rate == 4000
        || rate == 8000 {
        Ok(())
    } else {
        Err(SettingError::InvalidPollingRate(rate))
    }
}

/// Checks a DPI stage number the user gave (stages are numbered 1 to 6).
pub fn check_stage(stage: u8) -> (r: Result<(), SettingError>)
    ensures
        1 <= stage <= 6 ==> r == Ok::<(), SettingError>(()),
        !(1 <= stage <= 6) ==> r == Err::<(), SettingError>(SettingError::InvalidStage(stage)),
{
    if 1 <= stage && stage <= 6 {
        Ok(())
    } else {
        Err(SettingError::InvalidStage(stage))
    }
}

/// The DPI stages with stage `stage` (numbered from 1) set to `dpi`, and its Y
/// axis to `y_dpi` when given, else to `dpi` as well.
pub fn update_dpi_stage(stages: Vec<(u16, u16)>, stage: u8, dpi: u16, y_dpi: Option<u16>) -> (r: Result<
    Vec<(u16, u16)>,
    SettingError,
>)
    ensures
        !(1 <= stage <= 6) ==> r == Err::<Vec<(u16, u16)>, SettingError>(SettingError::InvalidStage(stage)),
        1 <= stage <= 6 && stage > stages@.len() ==> r == Err::<Vec<(u16, u16)>, SettingError>(
            SettingError::MissingStage(stage, stages@.len() as usize),
        ),
        1 <= stage <= 6 && stage <= stages@.len() ==> (r matches Ok(updated) && updated@ == stages@.update(
            stage - 1,
            (
                dpi,
                match y_dpi {
                    Some(y) => y,
                    None => dpi,
                },
            ),
        )),
{
    if !(1 <= stage && stage <= 6) {
        return Err(SettingError::InvalidStage(stage));
    }
    let idx = (stage - 1) as usize;
    if idx >= stages.len() {
        return Err(SettingError::MissingStage(stage, stages.len()));
    }
    let y = match y_dpi {
        Some(y) => y,
        None => dpi,
    };
    let mut stages = stages;
    stages.set(idx, (dpi, y));
    Ok(stages)
}

/// The raw sleep time written for a sleep time in minutes: 0 turns sleep off.
pub open spec fn sleep_raw_for_minutes(minutes: u16) -> u16 {
    if minutes == 0 {
        SLEEP_MAX_VAL
    } else {
        (minutes * 60) as u16
    }
}

/// The raw sleep time to write for a sleep time in minutes (0 for off, else 1
/// to 30).
pub fn sleep_seconds_for_minutes(minutes: u16) -> (r: Result<u16, SettingError>)
    ensures
        minutes <= 30 ==> r == Ok::<u16, SettingError>(sleep_raw_for_minutes(minutes)),
        minutes > 30 ==> r == Err::<u16, SettingError>(SettingError::InvalidSleepTime(minutes)),
{
    if minutes == 0 {
        Ok(SLEEP_MAX_VAL)
    } else if minutes <= 30 {
        Ok(minutes * 60)
    } else {
        Err(SettingError::InvalidSleepTime(minutes))
    }
}

/// Checks an angle tuning the user asked for (-30 to 30).
pub fn check_angle_tune(value: i8) -> (r: Result<(), SettingError>)
    ensures
        -30 <= value <= 30 ==> r == Ok::<(), SettingError>(()),
        !(-30 <= value <= 30) ==> r == Err::<(), SettingError>(SettingError::InvalidAngleTune(value)),
{
    if -30 <= value && value <= 30 {
        Ok(())
    } else {
        Err(SettingError::InvalidAngleTune(value))
    }
}

} // verus!
