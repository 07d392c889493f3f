//! Builders and parsers of the 64-byte feature reports.
//!
//! A request carries the payload length at byte 3, the page at byte 4, the
//! command at byte 5 and, for per-profile settings, the profile at byte 6. A
//! response carries its value one byte further on than the request layout when
//! the device answers with hid index 0, and at the request layout when the hid
//! index is 1.

use vstd::prelude::*;

use crate::consts::REPORT_SIZE;
use crate::text::{decimal, push_char, push_decimal_u8};

verus! {

/// A report of all zero bytes.
pub open spec fn zero_report() -> Seq<u8> {
    Seq::new(REPORT_SIZE as nat, |i: int| 0u8)
}

/// The request that reads a per-profile setting.
pub open spec fn profile_get_report(len: u8, page: u8, cmd: u8, profile: u8) -> Seq<u8> {
    zero_report().update(2, 0x02).update(3, len).update(4, page).update(5, cmd).update(6, profile)
}

/// The request that writes a one-byte per-profile setting.
pub open spec fn profile_set_report(len: u8, page: u8, cmd: u8, profile: u8, value: u8) -> Seq<u8> {
    profile_get_report(len, page, cmd, profile).update(7, value)
}

/// A device-level request (no profile byte).
pub open spec fn device_report(b2: u8, b3: u8, b5: u8) -> Seq<u8> {
    zero_report().update(2, b2).update(3, b3).update(4, 0).update(5, b5)
}

/// The big-endian 16-bit number at `k` and `k + 1`.
pub open spec fn be16_at(s: Seq<u8>, k: int) -> u16 {
    (s[k] * 256 + s[k + 1]) as u16
}

/// The one-byte value of a response, at `8 - hid_index`.
pub open spec fn value_byte(resp: Seq<u8>, hid_index: u8) -> u8 {
    resp[8 - hid_index]
}

proof fn lemma_be16(hi: u8, lo: u8)
    ensures
        ((hi as u16) << 8u16) | (lo as u16) == hi * 256 + lo,
{
    assert(((hi as u16) << 8u16) | (lo as u16) == hi * 256 + lo) by (bit_vector);
}

proof fn lemma_split16(x: u16)
    ensures
        (x >> 8u16) as u8 == x / 256,
        x as u8 == x % 256,
{
    assert((x >> 8u16) as u8 == x / 256) by (bit_vector);
    assert(x as u8 == x % 256) by (bit_vector);
}

fn build_profile_get(len: u8, page: u8, cmd: u8, profile: u8) -> (buf: [u8; REPORT_SIZE])
    ensures
        buf@ == profile_get_report(len, page, cmd, profile),
{
    let mut buf = [0u8; REPORT_SIZE];
    buf[2] = 0x02;
    buf[3] = len;
    buf[4] = page;
    buf[5] = cmd;
    buf[6] = profile;
    assert(buf@ =~= profile_get_report(len, page, cmd, profile));
    buf
}

fn build_profile_set(len: u8, page: u8, cmd: u8, profile: u8, value: u8) -> (buf: [u8; REPORT_SIZE])
    ensures
        buf@ == profile_set_report(len, page, cmd, profile, value),
{
    let mut buf = build_profile_get(len, page, cmd, profile);
    buf[7] = value;
    assert(buf@ =~= profile_set_report(len, page, cmd, profile, value));
    buf
}

fn build_device_request(b2: u8, b3: u8, b5: u8) -> (buf: [u8; REPORT_SIZE])
    ensures
        buf@ == device_report(b2, b3, b5),
{
    let mut buf = [0u8; REPORT_SIZE];
    buf[2] = b2;
    buf[3] = b3;
    buf[4] = 0x00;
    buf[5] = b5;
    assert(buf@ =~= device_report(b2, b3, b5));
    buf
}

/// The one-byte value of a response.
pub fn resp_u8(resp: &[u8; REPORT_SIZE], hid_index: u8) -> (v: u8)
    requires
        hid_index <= 8,
    ensures
        v == value_byte(resp@, hid_index),
{
    resp[(8 - hid_index) as usize]
}

/// The one-byte value of a response, read as a flag (non-zero is on).
pub fn resp_bool(resp: &[u8; REPORT_SIZE], hid_index: u8) -> (b: bool)
    requires
        hid_index <= 8,
    ensures
        b == (value_byte(resp@, hid_index) != 0),
{
    resp_u8(resp, hid_index) != 0
}

/// Request for the firmware version of the mouse (`device_id` 0x02) or of the
/// dongle (`device_id` 0x00).
pub fn build_get_firmware(device_id: u8) -> (buf: [u8; REPORT_SIZE])
    ensures
        buf@ == device_report(device_id, 0x10, 0x81),
{
    build_device_request(device_id, 0x10, 0x81)
}

/// The firmware version text: the four version bytes in decimal, joined by dots.
pub open spec fn firmware_text(resp: Seq<u8>, o: int) -> Seq<char> {
    decimal(resp[7 - o] as nat) + seq!['.'] + decimal(resp[8 - o] as nat) + seq!['.']
        + decimal(resp[9 - o] as nat) + seq!['.'] + decimal(resp[10 - o] as nat)
}

/// The firmware version of a response, such as `1.2.3.4`.
pub fn parse_firmware(resp: &[u8; REPORT_SIZE], hid_index: u8) -> (text: String)
    requires
        hid_index <= 7,
    ensures
        text@ == firmware_text(resp@, hid_index as int),
{
    let o = hid_index as usize;
    let mut text = String::new();
    push_decimal_u8(&mut text, resp[7 - o]);
    push_char(&mut text, '.');
    push_decimal_u8(&mut text, resp[8 - o]);
    push_char(&mut text, '.');
    push_decimal_u8(&mut text, resp[9 - o]);
    push_char(&mut text, '.');
    push_decimal_u8(&mut text, resp[10 - o]);
    assert(text@ =~= firmware_text(resp@, hid_index as int));
    text
}

/// Request for the battery state.
pub fn build_get_battery() -> (buf: [u8; REPORT_SIZE])
    ensures
        buf@ == device_report(0x02, 0x02, 0x83),
{
    build_device_request(0x02, 0x02, 0x83)
}

/// The battery level and charging flag of a response. The two bytes at
/// `7 - hid_index` come in either order: the one above 1 is the level, the
/// other the charging flag.
pub open spec fn battery_of(a: u8, b: u8) -> (u8, bool) {
    if a > 1 {
        (a, b != 0)
    } else {
        (b, a != 0)
    }
}

/// Battery percentage and whether the mouse is charging.
pub fn parse_battery(resp: &[u8; REPORT_SIZE], hid_index: u8) -> (r: (u8, bool))
    requires
        hid_index <= 7,
    ensures
        r == battery_of(resp@[7 - hid_index], resp@[8 - hid_index]),
{
    let idx = (7 - hid_index) as usize;
    let a = resp[idx];
    let b = resp[idx + 1];
    if a > 1 {
        (a, b != 0)
    } else {
        (b, a != 0)
    }
}

/// Request for the polling rate of a profile.
pub fn build_get_polling_rate(profile: u8) -> (buf: [u8; REPORT_SIZE])
    ensures
        buf@ == profile_get_report(0x02, 0x01, 0x80, profile),
{
    build_profile_get(0x02, 0x01, 0x80, profile)
}

/// The polling rate in Hz that a raw rate code stands for; an unknown code is
/// reported as its own value.
pub open spec fn polling_hz(raw: u8) -> u16 {
    if raw == 8 {
        125
    } else if raw == 4 {
        250
    } else if raw == 2 {
        500
    } else if raw == 1 || raw == 16 {
        1000
    } else if raw == 32 {
        2000
    } else if raw == 64 {
        4000
    } else if raw == 128 {
        8000
    } else {
        raw as u16
    }
}

/// The raw rate code written for a polling rate in Hz; a rate that is not one
/// of the seven supported ones is written as 1000 Hz.
pub open spec fn polling_code(rate: u16) -> u8 {
    if rate == 125 {
        8
    } else if rate == 250 {
        4
    } else if rate == 500 {
        2
    } else if rate == 2000 {
        32
    } else if rate == 4000 {
        64
    } else if rate == 8000 {
        128
    } else {
        1
    }
}

/// The polling rate in Hz of a response.
pub fn parse_polling_rate(resp: &[u8; REPORT_SIZE], hid_index: u8) -> (hz: u16)
    requires
        hid_index <= 8,
    ensures
        hz == polling_hz(value_byte(resp@, hid_index)),
{
    match resp_u8(resp, hid_index) {
        8 => 125,
        4 => 250,
        2 => 500,
        1 | 16 => 1000,
        32 => 2000,
        64 => 4000,
        128 => 8000,
        raw => raw as u16,
    }
}

/// Request that sets the polling rate of a profile.
pub fn build_set_polling_rate(profile: u8, rate: u16) -> (buf: [u8; REPORT_SIZE])
    ensures
        buf@ == profile_set_report(0x02, 0x01, 0x00, profile, polling_code(rate)),
{
    let raw: u8 = match rate {
        125 => 8,
        250 => 4,
        500 => 2,
        1000 => 1,
        2000 => 32,
        4000 => 64,
        8000 => 128,
        _ => 1,
    };
    build_profile_set(0x02, 0x01, 0x00, profile, raw)
}

/// Request for the active DPI stage of a profile.
pub fn build_get_active_dpi(profile: u8) -> (buf: [u8; REPORT_SIZE])
    ensures
        buf@ == profile_get_report(0x02, 0x01, 0x82, profile),
{
    build_profile_get(0x02, 0x01, 0x82, profile)
}

/// The active DPI stage of a response, counted from 0 (the device counts from
/// 1; a 0 stays 0).
pub fn parse_active_dpi(resp: &[u8; REPORT_SIZE], hid_index: u8) -> (stage: u8)
    requires
        hid_index <= 8,
    ensures
        stage == (if value_byte(resp@, hid_index) == 0 {
            0
        } else {
            value_byte(resp@, hid_index) - 1
        }),
{
    resp_u8(resp, hid_index).saturating_sub(1)
}

/// Request for the first `count` DPI stages of a profile.
pub fn build_get_dpi_stages(profile: u8, count: u8) -> (buf: [u8; REPORT_SIZE])
    ensures
        buf@ == profile_set_report(0x0A, 0x01, 0x81, profile, count),
{
    build_profile_set(0x0A, 0x01, 0x81, profile, count)
}

/// How many stages a response holds when `count` were asked for: the stages
/// that fit whole in the report.
pub open spec fn dpi_stage_count(count: u8, hid_index: u8) -> nat {
    let fit = (51 + hid_index) / 4 + 1;
    if count < fit {
        count as nat
    } else {
        fit as nat
    }
}

/// The `i`-th stage of a response: X then Y, big-endian, at `9 + 4 i - hid_index`.
pub open spec fn dpi_stage_at(resp: Seq<u8>, hid_index: u8, i: int) -> (u16, u16) {
    let xi = 9 + 4 * i - hid_index;
    (be16_at(resp, xi), be16_at(resp, xi + 2))
}

/// The DPI stages of a response, as `(x, y)` pairs.
pub fn parse_dpi_stages(resp: &[u8; REPORT_SIZE], count: u8, hid_index: u8) -> (stages: Vec<(u16, u16)>)
    requires
        count == 0 || hid_index <= 9,
    ensures
        stages@ == Seq::new(
            dpi_stage_count(count, hid_index),
            |i: int| dpi_stage_at(resp@, hid_index, i),
        ),
{
    let mut stages: Vec<(u16, u16)> = Vec::new();
    let o = hid_index as usize;
    let n = count as usize;
    let mut i: usize = 0;
    while i < n
        invariant
            o == hid_index,
            n == count,
            n == 0 || o <= 9,
            i <= n,
            i <= dpi_stage_count(count, hid_index),
            stages@.len() == i,
            forall|j: int| 0 <= j < i ==> stages@[j] == dpi_stage_at(resp@, hid_index, j),
        ensures
            stages@.len() == dpi_stage_count(count, hid_index),
            forall|j: int| 0 <= j < stages@.len() ==> stages@[j] == dpi_stage_at(resp@, hid_index, j),
        decreases n - i,
    {
        let xi = 9 + i * 4 - o;
        if xi + 3 >= REPORT_SIZE {
            break;
        }
        proof {
            lemma_be16(resp@[xi as int], resp@[xi + 1]);
            lemma_be16(resp@[xi + 2], resp@[xi + 3]);
        }
        let x = ((resp[xi] as u16) << 8) | resp[xi + 1] as u16;
        let y = ((resp[xi + 2] as u16) << 8) | resp[xi + 3] as u16;
        stages.push((x, y));
        i = i + 1;
    }
    assert(stages@ =~= Seq::new(
        dpi_stage_count(count, hid_index),
        |i: int| dpi_stage_at(resp@, hid_index, i),
    ));
    stages
}

/// The request that writes DPI stages: header, the stage count at byte 7, then
/// each stage as big-endian X and Y from byte 8 on.
pub open spec fn dpi_set_report(profile: u8, stages: Seq<(u16, u16)>) -> Seq<u8> {
    Seq::new(
        REPORT_SIZE as nat,
        |j: int|
            if j == 2 {
                0x02u8
            } else if j == 3 {
                0x1Au8
            } else if j == 4 || j == 5 {
                0x01u8
            } else if j == 6 {
                profile
            } else if j == 7 {
                stages.len() as u8
            } else if 8 <= j < 8 + 4 * stages.len() {
                stage_byte(stages[(j - 8) / 4], (j - 8) % 4)
            } else {
                0u8
            },
    )
}

/// Byte `k` (0 to 3) of a stage on the wire: X high, X low, Y high, Y low.
pub open spec fn stage_byte(stage: (u16, u16), k: int) -> u8 {
    if k == 0 {
        (stage.0 / 256) as u8
    } else if k == 1 {
        (stage.0 % 256) as u8
    } else if k == 2 {
        (stage.1 / 256) as u8
    } else {
        (stage.1 % 256) as u8
    }
}

/// Request that writes the DPI stages of a profile. At most 14 stages fit.
pub fn build_set_dpi_stages(profile: u8, stages: &[(u16, u16)]) -> (buf: [u8; REPORT_SIZE])
    requires
        stages@.len() <= 14,
    ensures
        buf@ == dpi_set_report(profile, stages@),
{
    let mut buf = [0u8; REPORT_SIZE];
    buf[2] = 0x02;
    buf[3] = 0x1A;
    buf[4] = 0x01;
    buf[5] = 0x01;
    buf[6] = profile;
    buf[7] = stages.len() as u8;
    let n = stages.len();
    let mut i: usize = 0;
    while i < n
        invariant
            n == stages@.len(),
            n <= 14,
            i <= n,
            forall|j: int|
                0 <= j < REPORT_SIZE ==> #[trigger] buf@[j] == (if j < 8 + 4 * i {
                    dpi_set_report(profile, stages@)[j]
                } else {
                    0u8
                }),
        decreases n - i,
    {
        let (x, y) = stages[i];
        let off = 8 + i * 4;
        proof {
            lemma_split16(x);
            lemma_split16(y);
        }
        buf[off] = (x >> 8) as u8;
        buf[off + 1] = x as u8;
        buf[off + 2] = (y >> 8) as u8;
        buf[off + 3] = y as u8;
        i = i + 1;
        assert forall|j: int| 0 <= j < REPORT_SIZE implies #[trigger] buf@[j] == (if j < 8 + 4 * i {
            dpi_set_report(profile, stages@)[j]
        } else {
            0u8
        }) by {
            if off <= j < off + 4 {
                assert((j - 8) / 4 == i - 1);
                assert((j - 8) % 4 == j - off);
            }
        }
    }
    assert(buf@ =~= dpi_set_report(profile, stages@));
    buf
}

/// Request that makes `stage` (counted from 1) the active DPI stage.
pub fn build_set_active_dpi(profile: u8, stage: u8) -> (buf: [u8; REPORT_SIZE])
    ensures
        buf@ == profile_set_report(0x02, 0x01, 0x02, profile, stage),
{
    build_profile_set(0x02, 0x01, 0x02, profile, stage)
}

/// Request for the lift-off distance of a profile.
pub fn build_get_lod(profile: u8) -> (buf: [u8; REPORT_SIZE])
    ensures
        buf@ == profile_get_report(0x02, 0x01, 0x88, profile),
{
    build_profile_get(0x02, 0x01, 0x88, profile)
}

/// The lift-off distance that a raw byte stands for, in tenths of a millimetre:
/// with the top bit set the low seven bits count tenths, otherwise the byte
/// counts whole millimetres.
pub open spec fn lod_tenths_of(raw: u8) -> u16 {
    if raw >= 0x80 {
        (raw - 0x80) as u16
    } else {
        (raw * 10) as u16
    }
}

/// The lift-off distance of a response, in tenths of a millimetre.
pub fn parse_lod_tenths(resp: &[u8; REPORT_SIZE], hid_index: u8) -> (tenths: u16)
    requires
        hid_index <= 8,
    ensures
        tenths == lod_tenths_of(value_byte(resp@, hid_index)),
{
    let raw = resp_u8(resp, hid_index);
    assert(raw & 0x80 != 0 <==> raw >= 0x80) by (bit_vector);
    assert(raw >= 0x80 ==> raw & 0x7F == raw - 0x80) by (bit_vector);
    if raw & 0x80 != 0 {
        (raw & 0x7F) as u16
    } else {
        raw as u16 * 10
    }
}

/// Request that sets the lift-off distance of a profile to a raw byte (see
/// `lod_tenths_of` for its meaning).
pub fn build_set_lod_raw(profile: u8, raw: u8) -> (buf: [u8; REPORT_SIZE])
    ensures
        buf@ == profile_set_report(0x02, 0x01, 0x08, profile, raw),
{
    build_profile_set(0x02, 0x01, 0x08, profile, raw)
}

/// Request for the debounce time of a profile.
pub fn build_get_debounce(profile: u8) -> (buf: [u8; REPORT_SIZE])
    ensures
        buf@ == profile_get_report(0x02, 0x00, 0x88, profile),
{
    build_profile_get(0x02, 0x00, 0x88, profile)
}

/// Request that sets the debounce time of a profile, in milliseconds.
pub fn build_set_debounce(profile: u8, ms: u8) -> (buf: [u8; REPORT_SIZE])
    ensures
        buf@ == profile_set_report(0x02, 0x00, 0x08, profile, ms),
{
    build_profile_set(0x02, 0x00, 0x08, profile, ms)
}

/// Request for the angle-snapping flag of a profile.
pub fn build_get_angle_snap(profile: u8) -> (buf: [u8; REPORT_SIZE])
    ensures
        buf@ == profile_get_report(0x02, 0x01, 0x84, profile),
{
    build_profile_get(0x02, 0x01, 0x84, profile)
}

/// The byte that stands for a flag: 1 for on, 0 for off.
pub open spec fn flag_byte(enabled: bool) -> u8 {
    if enabled {
        1
    } else {
        0
    }
}

/// Request that sets the angle-snapping flag of a profile.
pub fn build_set_angle_snap(profile: u8, enabled: bool) -> (buf: [u8; REPORT_SIZE])
    ensures
        buf@ == profile_set_report(0x02, 0x01, 0x04, profile, flag_byte(enabled)),
{
    build_profile_set(0x02, 0x01, 0x04, profile, if enabled { 1 } else { 0 })
}

/// Request for the motion-sync flag of a profile.
pub fn build_get_motion_sync(profile: u8) -> (buf: [u8; REPORT_SIZE])
    ensures
        buf@ == profile_get_report(0x02, 0x01, 0x89, profile),
{
    build_profile_get(0x02, 0x01, 0x89, profile)
}

/// Request that sets the motion-sync flag of a profile.
pub fn build_set_motion_sync(profile: u8, enabled: bool) -> (buf: [u8; REPORT_SIZE])
    ensures
        buf@ == profile_set_report(0x02, 0x01, 0x09, profile, flag_byte(enabled)),
{
    build_profile_set(0x02, 0x01, 0x09, profile, if enabled { 1 } else { 0 })
}

/// Request for the sleep time of a profile.
pub fn build_get_sleep_time(profile: u8) -> (buf: [u8; REPORT_SIZE])
    ensures
        buf@ == profile_get_report(0x03, 0x00, 0x87, profile),
{
    build_profile_get(0x03, 0x00, 0x87, profile)
}

/// The raw sleep time of a response: big-endian at `8 - hid_index`.
pub fn parse_sleep_time(resp: &[u8; REPORT_SIZE], hid_index: u8) -> (raw: u16)
    requires
        hid_index <= 8,
    ensures
        raw == be16_at(resp@, 8 - hid_index),
{
    let idx = (8 - hid_index) as usize;
    proof {
        lemma_be16(resp@[idx as int], resp@[idx + 1]);
    }
    ((resp[idx] as u16) << 8) | resp[idx + 1] as u16
}

/// The request that writes a sleep time: big-endian at bytes 7 and 8.
pub open spec fn sleep_set_report(profile: u8, seconds: u16) -> Seq<u8> {
    profile_get_report(0x03, 0x00, 0x07, profile).update(7, (seconds / 256) as u8).update(
        8,
        (seconds % 256) as u8,
    )
}

/// Request that sets the raw sleep time of a profile.
pub fn build_set_sleep_time(profile: u8, seconds: u16) -> (buf: [u8; REPORT_SIZE])
    ensures
        buf@ == sleep_set_report(profile, seconds),
{
    let mut buf = build_profile_get(0x03, 0x00, 0x07, profile);
    proof {
        lemma_split16(seconds);
    }
    buf[7] = (seconds >> 8) as u8;
    buf[8] = seconds as u8;
    assert(buf@ =~= sleep_set_report(profile, seconds));
    buf
}

/// Request for the id of the active profile.
pub fn build_get_profile_id() -> (buf: [u8; REPORT_SIZE])
    ensures
        buf@ == device_report(0x02, 0x01, 0x85),
{
    build_device_request(0x02, 0x01, 0x85)
}

/// The active profile id of a response, at `7 - hid_index`.
pub fn parse_profile_id(resp: &[u8; REPORT_SIZE], hid_index: u8) -> (id: u8)
    requires
        hid_index <= 7,
    ensures
        id == resp@[7 - hid_index],
{
    resp[(7 - hid_index) as usize]
}

/// Request for the angle tuning of a profile.
pub fn build_get_angle_tune(profile: u8) -> (buf: [u8; REPORT_SIZE])
    ensures
        buf@ == profile_get_report(0x02, 0x01, 0x94, profile),
{
    build_profile_get(0x02, 0x01, 0x94, profile)
}

/// The angle tuning that a raw byte stands for: the byte read as two's
/// complement.
pub open spec fn angle_tune_of(raw: u8) -> i8 {
    if raw >= 128 {
        (raw - 256) as i8
    } else {
        raw as i8
    }
}

/// The byte written for an angle tuning: two's complement.
pub open spec fn angle_tune_code(value: i8) -> u8 {
    if value < 0 {
        (value + 256) as u8
    } else {
        value as u8
    }
}

/// The angle tuning of a response.
pub fn parse_angle_tune(resp: &[u8; REPORT_SIZE], hid_index: u8) -> (v: i8)
    requires
        hid_index <= 8,
    ensures
        v == angle_tune_of(value_byte(resp@, hid_index)),
{
    let raw = resp_u8(resp, hid_index);
    if raw >= 128 {
        (raw as i16 - 256) as i8
    } else {
        raw as i8
    }
}

/// Request that sets the angle tuning of a profile.
pub fn build_set_angle_tune(profile: u8, value: i8) -> (buf: [u8; REPORT_SIZE])
    ensures
        buf@ == profile_set_report(0x02, 0x01, 0x14, profile, angle_tune_code(value)),
{
    let raw: u8 = if value < 0 {
        let magnitude = (0 - value as i16) as u8;
        255 - magnitude + 1
    } else {
        value as u8
    };
    build_profile_set(0x02, 0x01, 0x14, profile, raw)
}

/// Request for the ripple-control flag of a profile.
pub fn build_get_ripple_control(profile: u8) -> (buf: [u8; REPORT_SIZE])
    ensures
        buf@ == profile_get_report(0x02, 0x01, 0x8A, profile),
{
    build_profile_get(0x02, 0x01, 0x8A, profile)
}

/// Request that sets the ripple-control flag of a profile.
pub fn build_set_ripple_control(profile: u8, enabled: bool) -> (buf: [u8; REPORT_SIZE])
    ensures
        buf@ == profile_set_report(0x02, 0x01, 0x0A, profile, flag_byte(enabled)),
{
    build_profile_set(0x02, 0x01, 0x0A, profile, if enabled { 1 } else { 0 })
}

/// Request for the serial number.
pub fn build_get_sn() -> (buf: [u8; REPORT_SIZE])
    ensures
        buf@ == device_report(0x02, 0x14, 0x82),
{
    build_device_request(0x02, 0x14, 0x82)
}

/// A printable ASCII byte other than space (0x21 to 0x7E).
pub open spec fn is_graphic(b: u8) -> bool {
    0x21 <= b <= 0x7E
}

/// The character of an ASCII byte.
pub open spec fn ascii_char(b: u8) -> char {
    b as char
}

/// The serial number of a response: the printable bytes from `9 - hid_index`
/// on, up to the first byte that is not printable (or the end of the report).
pub fn parse_sn(resp: &[u8; REPORT_SIZE], hid_index: u8) -> (sn: String)
    requires
        hid_index <= 9,
    ensures
        ({
            let start = 9 - hid_index;
            &&& start + sn@.len() <= REPORT_SIZE
            &&& forall|j: int| 0 <= j < sn@.len() ==> #[trigger] is_graphic(resp@[start + j])
            &&& forall|j: int| 0 <= j < sn@.len() ==> #[trigger] sn@[j] == ascii_char(resp@[start + j])
            &&& start + sn@.len() == REPORT_SIZE || !is_graphic(resp@[start + sn@.len()])
        }),
{
    let start = (9 - hid_index) as usize;
    let mut sn = String::new();
    let mut k = start;
    while k < REPORT_SIZE
        invariant
            start == 9 - hid_index,
            start <= k <= REPORT_SIZE,
            sn@.len() == k - start,
            forall|j: int| 0 <= j < sn@.len() ==> #[trigger] is_graphic(resp@[start + j]),
            forall|j: int| 0 <= j < sn@.len() ==> #[trigger] sn@[j] == ascii_char(resp@[start + j]),
        ensures
            k == REPORT_SIZE || !is_graphic(resp@[k as int]),
        decreases REPORT_SIZE - k,
    {
        let b = resp[k];
        if !(0x21 <= b && b <= 0x7E) {
            break;
        }
        push_char(&mut sn, b as char);
        k = k + 1;
    }
    sn
}

/// Request that resets the device to factory settings.
pub open spec fn factory_reset_report() -> Seq<u8> {
    device_report(0x02, 0x02, 0x00).update(6, 0xC0).update(7, 0x01)
}

/// Request that resets the device to factory settings.
pub fn build_factory_reset() -> (buf: [u8; REPORT_SIZE])
    ensures
        buf@ == factory_reset_report(),
{
    let mut buf = build_device_request(0x02, 0x02, 0x00);
    buf[6] = 0xC0;
    buf[7] = 0x01;
    assert(buf@ =~= factory_reset_report());
    buf
}

} // verus!
