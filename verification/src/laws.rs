//! Properties that relate several functions of the library.

use vstd::prelude::*;

use crate::consts::{MAX_RETRIES, REPORT_ID, REPORT_SIZE};
use crate::devices::{known_pid_name, pid_name_text};
use crate::hyprland::{
    is_whitespace, leading_whitespace, strip_hex_prefix, trailing_whitespace, trimmed,
};
use crate::text::{decimal, digit_char, hex4};
use crate::hyprland::focus_step;
use crate::report::{
    angle_tune_code, angle_tune_of, battery_of, be16_at, dpi_set_report, dpi_stage_at, dpi_stage_count, firmware_text,
    flag_byte, lod_tenths_of, polling_code, polling_hz, profile_set_report, sleep_set_report, value_byte,
};
use crate::settings::{is_supported_rate, sleep_raw_for_minutes};
use crate::transport::{probe_step_of, recv_step_of, ProbeStep, RecvStep};
use crate::types::sleep_seconds_of;
use crate::wrap::{apply_writes_of, restore_writes_of};

verus! {

/// A supported polling rate, once written, is read back as the same rate; any
/// other rate is written as 1000 Hz.
pub proof fn polling_rate_round_trip(rate: u16)
    ensures
        is_supported_rate(rate) ==> polling_hz(polling_code(rate)) == rate,
        !is_supported_rate(rate) ==> polling_hz(polling_code(rate)) == 1000,
{
}

/// Every angle tuning, once written, is read back as the same value.
pub proof fn angle_tune_round_trip(value: i8)
    ensures
        angle_tune_of(angle_tune_code(value)) == value,
{
}

/// A flag written into a one-byte setting is read back as the same flag from a
/// report in the layout of hid index 1.
pub proof fn flag_round_trip(page: u8, cmd: u8, profile: u8, enabled: bool)
    ensures
        (value_byte(profile_set_report(0x02, page, cmd, profile, flag_byte(enabled)), 1) != 0) == enabled,
{
}

/// A sleep time written into a request is read back as the same raw value from
/// a report in the layout of hid index 1.
pub proof fn sleep_time_round_trip(profile: u8, seconds: u16)
    ensures
        be16_at(sleep_set_report(profile, seconds), 8 - 1) == seconds,
{
}

/// Setting the sleep time to 0 minutes reads back as no sleep; setting 1 to 30
/// minutes reads back as that many minutes in seconds.
pub proof fn sleep_minutes_round_trip(minutes: u16)
    requires
        minutes <= 30,
    ensures
        minutes == 0 ==> sleep_seconds_of(sleep_raw_for_minutes(minutes)) == 0,
        minutes > 0 ==> sleep_seconds_of(sleep_raw_for_minutes(minutes)) == minutes * 60,
{
}

/// Normalizing a sleep time twice gives what normalizing it once gives.
pub proof fn sleep_time_normal_form(raw: u16)
    ensures
        sleep_seconds_of(sleep_seconds_of(raw)) == sleep_seconds_of(raw),
{
}

/// Up to 14 DPI stages written into a request are read back, all of them and
/// in order, from a report in the layout of hid index 1.
pub proof fn dpi_stages_round_trip(profile: u8, stages: Seq<(u16, u16)>)
    requires
        stages.len() <= 14,
    ensures
        Seq::new(
            dpi_stage_count(stages.len() as u8, 1),
            |i: int| dpi_stage_at(dpi_set_report(profile, stages), 1, i),
        ) == stages,
{
    let r = dpi_set_report(profile, stages);
    assert(dpi_stage_count(stages.len() as u8, 1) == stages.len());
    assert forall|i: int| 0 <= i < stages.len() implies #[trigger] dpi_stage_at(r, 1, i) == stages[i] by {
        let xi = 8 + 4 * i;
        assert((xi - 8) / 4 == i && (xi - 8) % 4 == 0);
        assert((xi + 1 - 8) / 4 == i && (xi + 1 - 8) % 4 == 1);
        assert((xi + 2 - 8) / 4 == i && (xi + 2 - 8) % 4 == 2);
        assert((xi + 3 - 8) / 4 == i && (xi + 3 - 8) % 4 == 3);
        assert(r[xi] == (stages[i].0 / 256) as u8);
        assert(r[xi + 1] == (stages[i].0 % 256) as u8);
        assert(r[xi + 2] == (stages[i].1 / 256) as u8);
        assert(r[xi + 3] == (stages[i].1 % 256) as u8);
    }
    assert(Seq::new(
        dpi_stage_count(stages.len() as u8, 1),
        |i: int| dpi_stage_at(r, 1, i),
    ) =~= stages);
}

/// A request framed for the wire, read back as a response frame, is the
/// request again.
pub proof fn frame_round_trip(data: Seq<u8>)
    requires
        data.len() == REPORT_SIZE,
    ensures
        (seq![REPORT_ID] + data).subrange(1, REPORT_SIZE + 1) == data,
{
    assert((seq![REPORT_ID] + data).subrange(1, REPORT_SIZE + 1) =~= data);
}

/// The exchange gives up only after its last attempt, and never accepts a
/// response that does not answer the request.
pub proof fn exchange_gives_up_only_at_last_attempt(attempt: u8, resp: Seq<u8>, hid_index: u8, cmd_byte: u8)
    requires
        attempt < MAX_RETRIES,
        hid_index <= 1,
    ensures
        recv_step_of(attempt, resp, hid_index, cmd_byte) is GiveUp ==> attempt == MAX_RETRIES - 1,
        recv_step_of(attempt, resp, hid_index, cmd_byte) is Retry ==> attempt < MAX_RETRIES - 1,
        recv_step_of(attempt, resp, hid_index, cmd_byte) is Accept ==> resp[5] == cmd_byte,
        probe_step_of(attempt, resp) is GiveUp ==> attempt == MAX_RETRIES - 1,
        probe_step_of(attempt, resp) is Retry ==> attempt < MAX_RETRIES - 1,
{
}

/// A response is accepted exactly when its status byte (byte 1 for hid index
/// 0, byte 0 for hid index 1) is the OK status 0xA1 and byte 5 echoes the
/// command. A response whose status byte is the sleeping status 0xA0 is never
/// accepted: it is waited on for 500 ms, and the user is told on the first
/// attempt; the exchange gives up only after its tenth attempt.
pub proof fn exchange_accepts_only_the_answer(attempt: u8, resp: Seq<u8>, hid_index: u8, cmd_byte: u8)
    requires
        attempt < 10,
        hid_index <= 1,
        resp.len() == 64,
    ensures
        (recv_step_of(attempt, resp, hid_index, cmd_byte) == RecvStep::Accept) <==> (resp[1 - hid_index]
            == 0xA1 && resp[5] == cmd_byte),
        resp[1 - hid_index] == 0xA0 && attempt < 9 ==> recv_step_of(attempt, resp, hid_index, cmd_byte)
            == (RecvStep::Retry { announce: attempt == 0, pause_ms: 500 }),
        resp[1 - hid_index] == 0xA0 && attempt == 9 ==> recv_step_of(attempt, resp, hid_index, cmd_byte)
            == (RecvStep::GiveUp { announce: false, pause_ms: 500 }),
        resp[1 - hid_index] == 0xA1 && resp[5] != cmd_byte ==> recv_step_of(attempt, resp, hid_index, cmd_byte)
            matches RecvStep::Retry { pause_ms: 500, .. } || recv_step_of(attempt, resp, hid_index, cmd_byte)
            matches RecvStep::GiveUp { pause_ms: 500, .. },
        resp[1 - hid_index] != 0xA0 && resp[1 - hid_index] != 0xA1 && attempt < 9 ==> recv_step_of(
            attempt,
            resp,
            hid_index,
            cmd_byte,
        ) == (RecvStep::Retry { announce: false, pause_ms: 50 }),
        resp[1 - hid_index] != 0xA0 && resp[1 - hid_index] != 0xA1 && attempt == 9 ==> recv_step_of(
            attempt,
            resp,
            hid_index,
            cmd_byte,
        ) == (RecvStep::GiveUp { announce: false, pause_ms: 0 }),
{
}

/// The hid index probe finds hid index 1 when byte 0 holds the OK status 0xA1,
/// else hid index 0 when byte 1 does. Otherwise a sleeping status 0xA0 in
/// either byte means the mouse is asleep: wait 500 ms, telling the user on the
/// first attempt; any other response is probed again at once. The probe gives
/// up only after its tenth attempt.
pub proof fn probe_waits_for_a_sleeping_mouse(attempt: u8, resp: Seq<u8>)
    requires
        attempt < 10,
        resp.len() == 64,
    ensures
        (probe_step_of(attempt, resp) == ProbeStep::Found(1)) <==> resp[0] == 0xA1,
        (probe_step_of(attempt, resp) == ProbeStep::Found(0)) <==> (resp[0] != 0xA1 && resp[1] == 0xA1),
        resp[0] != 0xA1 && resp[1] != 0xA1 && (resp[0] == 0xA0 || resp[1] == 0xA0) ==> probe_step_of(
            attempt,
            resp,
        ) == (if attempt < 9 {
            ProbeStep::Retry { announce: attempt == 0, pause_ms: 500 }
        } else {
            ProbeStep::GiveUp { announce: false, pause_ms: 500 }
        }),
        resp[0] != 0xA1 && resp[1] != 0xA1 && resp[0] != 0xA0 && resp[1] != 0xA0 ==> probe_step_of(
            attempt,
            resp,
        ) == (if attempt < 9 {
            ProbeStep::Retry { announce: false, pause_ms: 0 }
        } else {
            ProbeStep::GiveUp { announce: false, pause_ms: 0 }
        }),
{
}

/// Of the two battery bytes, one above 1 is the level and the other the
/// charging flag; when the first is 0 or 1 it is the charging flag and the
/// second is the level.
pub proof fn battery_level_and_charging(a: u8, b: u8)
    ensures
        a > 1 ==> battery_of(a, b).0 == a && battery_of(a, b).1 == (b != 0),
        a <= 1 ==> battery_of(a, b).0 == b && battery_of(a, b).1 == (a == 1),
{
}

/// Stage `i` of a response is read big-endian, X at byte `9 + 4 i - hid_index`
/// and Y two bytes later; as many stages are read as were asked for and fit
/// whole in the 64-byte report.
pub proof fn dpi_stage_layout(resp: Seq<u8>, count: u8, hid_index: u8, i: int)
    requires
        hid_index <= 9,
        resp.len() == 64,
    ensures
        dpi_stage_count(count, hid_index) <= count,
        0 <= i < dpi_stage_count(count, hid_index) ==> 12 + 4 * i - hid_index < 64 && dpi_stage_at(
            resp,
            hid_index,
            i,
        ) == (
            (resp[9 + 4 * i - hid_index] * 256 + resp[10 + 4 * i - hid_index]) as u16,
            (resp[11 + 4 * i - hid_index] * 256 + resp[12 + 4 * i - hid_index]) as u16,
        ),
        dpi_stage_count(count, hid_index) < count ==> 12 + 4 * dpi_stage_count(count, hid_index) - hid_index
            >= 64,
{
}

/// A response in the layout of hid index 0 carries each byte of the request
/// layout one byte later; up to 13 DPI stages written into a request are read
/// back, all of them and in order, from such a response.
pub proof fn dpi_stages_round_trip_shifted(profile: u8, stages: Seq<(u16, u16)>, resp: Seq<u8>)
    requires
        stages.len() <= 13,
        resp.len() == 64,
        forall|j: int| 1 <= j < 64 ==> #[trigger] resp[j] == dpi_set_report(profile, stages)[j - 1],
    ensures
        Seq::new(dpi_stage_count(stages.len() as u8, 0), |i: int| dpi_stage_at(resp, 0, i)) == stages,
{
    let r = dpi_set_report(profile, stages);
    assert(dpi_stage_count(stages.len() as u8, 0) == stages.len());
    assert forall|i: int| 0 <= i < stages.len() implies #[trigger] dpi_stage_at(resp, 0, i) == stages[i] by {
        let xi = 8 + 4 * i;
        assert((xi - 8) / 4 == i && (xi - 8) % 4 == 0);
        assert((xi + 1 - 8) / 4 == i && (xi + 1 - 8) % 4 == 1);
        assert((xi + 2 - 8) / 4 == i && (xi + 2 - 8) % 4 == 2);
        assert((xi + 3 - 8) / 4 == i && (xi + 3 - 8) % 4 == 3);
        assert(resp[xi + 1] == r[xi]);
        assert(resp[xi + 2] == r[xi + 1]);
        assert(resp[xi + 3] == r[xi + 2]);
        assert(resp[xi + 4] == r[xi + 3]);
        assert(r[xi] == (stages[i].0 / 256) as u8);
        assert(r[xi + 1] == (stages[i].0 % 256) as u8);
        assert(r[xi + 2] == (stages[i].1 / 256) as u8);
        assert(r[xi + 3] == (stages[i].1 % 256) as u8);
    }
    assert(Seq::new(dpi_stage_count(stages.len() as u8, 0), |i: int| dpi_stage_at(resp, 0, i)) =~= stages);
}

/// The focus watcher reports a change only once: after an event line, the
/// same line again reports nothing.
pub proof fn focus_change_reported_once(window: Seq<char>, focused: bool, line: Seq<char>)
    ensures
        focus_step(window, focus_step(window, focused, line).0, line).1 is None,
{
}

/// The settings a device has after applying a set of writes.
pub open spec fn after_writes(
    s: (u16, Seq<(u16, u16)>, u8),
    w: (Option<u16>, Option<Seq<(u16, u16)>>, Option<u8>),
) -> (u16, Seq<(u16, u16)>, u8) {
    (
        match w.0 {
            Some(r) => r,
            None => s.0,
        },
        match w.1 {
            Some(st) => st,
            None => s.1,
        },
        match w.2 {
            Some(d) => d,
            None => s.2,
        },
    )
}

/// What `wrap` reads from a device with settings `s` and active stage `active`
/// for the targets `t`.
pub open spec fn wrap_reads(
    s: (u16, Seq<(u16, u16)>, u8),
    active: u8,
    t: (Option<u16>, Option<u16>, Option<u8>),
) -> (Option<u16>, Option<(u8, Seq<(u16, u16)>)>, Option<u8>) {
    (
        if t.0 is Some {
            Some(s.0)
        } else {
            None
        },
        if t.1 is Some {
            Some((active, s.1))
        } else {
            None
        },
        if t.2 is Some {
            Some(s.2)
        } else {
            None
        },
    )
}

/// `wrap` leaves the device as it found it: the writes made after the program
/// put back every setting that the writes before it changed. While the program
/// runs, the polling rate and debounce time are the ones asked for, and the
/// active stage, when it exists, has the asked-for X DPI.
pub proof fn wrap_restores_settings(
    s: (u16, Seq<(u16, u16)>, u8),
    active: u8,
    t: (Option<u16>, Option<u16>, Option<u8>),
)
    ensures
        ({
            let o = wrap_reads(s, active, t);
            let during = after_writes(s, apply_writes_of(t, o));
            &&& after_writes(during, restore_writes_of(t, o)) == s
            &&& (t.0 matches Some(r) ==> during.0 == r)
            &&& (t.2 matches Some(d) ==> during.2 == d)
            &&& (t.1 matches Some(d) ==> active < s.1.len() ==> during.1[active as int].0 == d)
        }),
{
}

proof fn lemma_name_split(name: Seq<char>, base: Seq<char>, suffix: Seq<char>)
    requires
        name == base + suffix,
    ensures
        base == name.subrange(0, name.len() - suffix.len()),
        suffix == name.subrange(name.len() - suffix.len(), name.len() as int),
{
    assert(base =~= name.subrange(0, name.len() - suffix.len()));
    assert(suffix =~= name.subrange(name.len() - suffix.len(), name.len() as int));
}

/// The two interfaces of one mouse have neighbouring product ids: the dongle's
/// id is one below the wired mouse's, and their names differ only in
/// "(dongle)" and "(wired)". Every known wired mouse has its dongle.
pub proof fn dongle_and_wired_ids_pair_up(pid: u16, base: Seq<char>)
    ensures
        known_pid_name(pid) == Some(base + " (dongle)"@) ==> pid < 0xFFFF && known_pid_name(
            (pid + 1) as u16,
        ) == Some(base + " (wired)"@),
        known_pid_name(pid) == Some(base + " (wired)"@) ==> pid > 0 && known_pid_name((pid - 1) as u16)
            == Some(base + " (dongle)"@),
{
    reveal_strlit("HUAN (wired)");
    reveal_strlit("HUAN (dongle)");
    reveal_strlit("BEAST MIAO (wired)");
    reveal_strlit("BEAST MIAO (dongle)");
    reveal_strlit("WLmouse (1K dongle)");
    reveal_strlit("STRIDER (wired)");
    reveal_strlit("STRIDER (dongle)");
    reveal_strlit("YING (wired)");
    reveal_strlit("YING (dongle)");
    reveal_strlit("SWORD X (wired)");
    reveal_strlit("SWORD X (dongle)");
    reveal_strlit("BEAST MINI (wired)");
    reveal_strlit("BEAST MINI (dongle)");
    reveal_strlit("BEAST MINI PRO (wired)");
    reveal_strlit("BEAST MINI PRO (dongle)");
    reveal_strlit("BEAST MAX (wired)");
    reveal_strlit("BEAST MAX (dongle)");
    reveal_strlit("BEAST X (wired)");
    reveal_strlit("BEAST X (dongle)");
    reveal_strlit("BEAST X PRO (wired)");
    reveal_strlit("BEAST X PRO (dongle)");
    reveal_strlit(" (dongle)");
    reveal_strlit(" (wired)");
    if known_pid_name(pid) == Some(base + " (dongle)"@) {
        let n = known_pid_name(pid).unwrap();
        lemma_name_split(n, base, " (dongle)"@);
        if pid == 0xA863 {
            assert(base =~= "HUAN (dongle)"@.subrange(0, 4));
            assert("HUAN (wired)"@ =~= base + " (wired)"@);
        } else if pid == 0xA866 {
            assert(base =~= "BEAST MIAO (dongle)"@.subrange(0, 10));
            assert("BEAST MIAO (wired)"@ =~= base + " (wired)"@);
        } else if pid == 0xA872 {
            assert(base =~= "STRIDER (dongle)"@.subrange(0, 7));
            assert("STRIDER (wired)"@ =~= base + " (wired)"@);
        } else if pid == 0xA874 {
            assert(base =~= "YING (dongle)"@.subrange(0, 4));
            assert("YING (wired)"@ =~= base + " (wired)"@);
        } else if pid == 0xA878 {
            assert(base =~= "SWORD X (dongle)"@.subrange(0, 7));
            assert("SWORD X (wired)"@ =~= base + " (wired)"@);
        } else if pid == 0xA885 {
            assert(base =~= "BEAST MINI (dongle)"@.subrange(0, 10));
            assert("BEAST MINI (wired)"@ =~= base + " (wired)"@);
        } else if pid == 0xA868 {
            assert(base =~= "BEAST MINI PRO (dongle)"@.subrange(0, 14));
            assert("BEAST MINI PRO (wired)"@ =~= base + " (wired)"@);
        } else if pid == 0xA880 {
            assert(base =~= "BEAST MAX (dongle)"@.subrange(0, 9));
            assert("BEAST MAX (wired)"@ =~= base + " (wired)"@);
        } else if pid == 0xA883 {
            assert(base =~= "BEAST X (dongle)"@.subrange(0, 7));
            assert("BEAST X (wired)"@ =~= base + " (wired)"@);
        } else if pid == 0xA870 {
            assert(base =~= "BEAST X PRO (dongle)"@.subrange(0, 11));
            assert("BEAST X PRO (wired)"@ =~= base + " (wired)"@);
        } else {
            assert(n.subrange(n.len() - 9, n.len() as int)[0] != " (dongle)"@[0] || n.subrange(n.len() - 9, n.len() as int)[7] != " (dongle)"@[7]);
        }
    }
    if known_pid_name(pid) == Some(base + " (wired)"@) {
        let n = known_pid_name(pid).unwrap();
        lemma_name_split(n, base, " (wired)"@);
        if pid == 0xA864 {
            assert(base =~= "HUAN (wired)"@.subrange(0, 4));
            assert("HUAN (dongle)"@ =~= base + " (dongle)"@);
        } else if pid == 0xA867 {
            assert(base =~= "BEAST MIAO (wired)"@.subrange(0, 10));
            assert("BEAST MIAO (dongle)"@ =~= base + " (dongle)"@);
        } else if pid == 0xA873 {
            assert(base =~= "STRIDER (wired)"@.subrange(0, 7));
            assert("STRIDER (dongle)"@ =~= base + " (dongle)"@);
        } else if pid == 0xA875 {
            assert(base =~= "YING (wired)"@.subrange(0, 4));
            assert("YING (dongle)"@ =~= base + " (dongle)"@);
        } else if pid == 0xA879 {
            assert(base =~= "SWORD X (wired)"@.subrange(0, 7));
            assert("SWORD X (dongle)"@ =~= base + " (dongle)"@);
        } else if pid == 0xA886 {
            assert(base =~= "BEAST MINI (wired)"@.subrange(0, 10));
            assert("BEAST MINI (dongle)"@ =~= base + " (dongle)"@);
        } else if pid == 0xA869 {
            assert(base =~= "BEAST MINI PRO (wired)"@.subrange(0, 14));
            assert("BEAST MINI PRO (dongle)"@ =~= base + " (dongle)"@);
        } else if pid == 0xA881 {
            assert(base =~= "BEAST MAX (wired)"@.subrange(0, 9));
            assert("BEAST MAX (dongle)"@ =~= base + " (dongle)"@);
        } else if pid == 0xA884 {
            assert(base =~= "BEAST X (wired)"@.subrange(0, 7));
            assert("BEAST X (dongle)"@ =~= base + " (dongle)"@);
        } else if pid == 0xA871 {
            assert(base =~= "BEAST X PRO (wired)"@.subrange(0, 11));
            assert("BEAST X PRO (dongle)"@ =~= base + " (dongle)"@);
        } else {
            assert(n.subrange(n.len() - 8, n.len() as int)[2] != " (wired)"@[2]);
        }
    }
}

/// The 21 known product ids and their names; every other id is named
/// `Unknown (0x....)` after its four hexadecimal digits.
pub proof fn known_device_names(pid: u16)
    ensures
        pid_name_text(0xA864) == "HUAN (wired)"@,
        pid_name_text(0xA863) == "HUAN (dongle)"@,
        pid_name_text(0xA867) == "BEAST MIAO (wired)"@,
        pid_name_text(0xA866) == "BEAST MIAO (dongle)"@,
        pid_name_text(0xA882) == "WLmouse (1K dongle)"@,
        pid_name_text(0xA873) == "STRIDER (wired)"@,
        pid_name_text(0xA872) == "STRIDER (dongle)"@,
        pid_name_text(0xA875) == "YING (wired)"@,
        pid_name_text(0xA874) == "YING (dongle)"@,
        pid_name_text(0xA879) == "SWORD X (wired)"@,
        pid_name_text(0xA878) == "SWORD X (dongle)"@,
        pid_name_text(0xA886) == "BEAST MINI (wired)"@,
        pid_name_text(0xA885) == "BEAST MINI (dongle)"@,
        pid_name_text(0xA869) == "BEAST MINI PRO (wired)"@,
        pid_name_text(0xA868) == "BEAST MINI PRO (dongle)"@,
        pid_name_text(0xA881) == "BEAST MAX (wired)"@,
        pid_name_text(0xA880) == "BEAST MAX (dongle)"@,
        pid_name_text(0xA884) == "BEAST X (wired)"@,
        pid_name_text(0xA883) == "BEAST X (dongle)"@,
        pid_name_text(0xA871) == "BEAST X PRO (wired)"@,
        pid_name_text(0xA870) == "BEAST X PRO (dongle)"@,
        pid != 0xA864 && pid != 0xA863 && pid != 0xA867 && pid != 0xA866 && pid != 0xA882 && pid != 0xA873 && pid != 0xA872 && pid != 0xA875 && pid != 0xA874 && pid != 0xA879 && pid != 0xA878 && pid != 0xA886 && pid != 0xA885 && pid != 0xA869 && pid != 0xA868 && pid != 0xA881 && pid != 0xA880 && pid != 0xA884 && pid != 0xA883 && pid != 0xA871 && pid != 0xA870 ==> pid_name_text(pid) == "Unknown ("@ + seq!['0', 'x'] + hex4(pid) + seq![')'],
{
}

/// The numeric value of a string of decimal digits.
pub open spec fn digits_value(s: Seq<char>) -> int
    decreases s.len(),
{
    if s.len() == 0 {
        0
    } else {
        digits_value(s.drop_last()) * 10 + (s.last() as int - 48)
    }
}

/// The decimal text of a number consists of decimal digits, has no leading
/// zero, and reads back as the number.
pub proof fn decimal_reads_back(n: nat)
    ensures
        decimal(n).len() >= 1,
        forall|i: int| 0 <= i < decimal(n).len() ==> '0' <= #[trigger] decimal(n)[i] <= '9',
        n > 0 ==> decimal(n)[0] != '0',
        digits_value(decimal(n)) == n,
    decreases n,
{
    if n >= 10 {
        decimal_reads_back(n / 10);
        let s = decimal(n);
        assert(s.drop_last() =~= decimal(n / 10));
        assert(s.last() as int - 48 == n % 10);
        assert((n / 10) * 10 + n % 10 == n);
        assert(digits_value(s) == digits_value(s.drop_last()) * 10 + (s.last() as int - 48));
        assert(digits_value(s.drop_last()) == n / 10);
    } else {
        assert(decimal(n).drop_last() =~= Seq::<char>::empty());
        assert(decimal(n).last() as int - 48 == n);
        assert(digits_value(decimal(n)) == digits_value(decimal(n).drop_last()) * 10 + (decimal(n).last() as int - 48));
    }
}

/// The value of a lower-case hexadecimal digit character.
pub open spec fn hex_digit_value(c: char) -> int {
    if c as int <= 57 {
        c as int - 48
    } else {
        c as int - 87
    }
}

proof fn lemma_hex_digit(d: int)
    requires
        0 <= d < 16,
    ensures
        hex_digit_value(digit_char(d)) == d,
        ('0' <= digit_char(d) <= '9') || ('a' <= digit_char(d) <= 'f'),
{
}

/// The four hexadecimal digits of a number are `0`-`9` or `a`-`f` and read
/// back, most significant first, as the number.
pub proof fn hex4_reads_back(n: u16)
    ensures
        hex4(n).len() == 4,
        forall|i: int| 0 <= i < 4 ==> ('0' <= #[trigger] hex4(n)[i] <= '9') || ('a' <= hex4(n)[i] <= 'f'),
        hex_digit_value(hex4(n)[0]) * 4096 + hex_digit_value(hex4(n)[1]) * 256 + hex_digit_value(hex4(n)[2]) * 16
            + hex_digit_value(hex4(n)[3]) == n,
{
    let a = (n / 4096) as int;
    let b = ((n / 256) % 16) as int;
    let c = ((n / 16) % 16) as int;
    let d = (n % 16) as int;
    lemma_hex_digit(a);
    lemma_hex_digit(b);
    lemma_hex_digit(c);
    lemma_hex_digit(d);
    assert(a * 4096 + b * 256 + c * 16 + d == n) by (nonlinear_arith)
        requires
            a == n / 4096,
            b == (n / 256) % 16,
            c == (n / 16) % 16,
            d == n % 16,
            0 <= n < 65536,
    ;
}

/// A raw polling-rate code that stands for no supported rate is reported as
/// its own value; the supported codes give 125 to 8000 Hz.
pub proof fn polling_hz_of_codes(raw: u8)
    ensures
        raw != 1 && raw != 2 && raw != 4 && raw != 8 && raw != 16 && raw != 32 && raw != 64 && raw != 128
            ==> polling_hz(raw) == raw,
        raw == 8 ==> polling_hz(raw) == 125,
        raw == 4 ==> polling_hz(raw) == 250,
        raw == 2 ==> polling_hz(raw) == 500,
        raw == 1 || raw == 16 ==> polling_hz(raw) == 1000,
        raw == 32 ==> polling_hz(raw) == 2000,
        raw == 64 ==> polling_hz(raw) == 4000,
        raw == 128 ==> polling_hz(raw) == 8000,
{
}

/// A lift-off distance below 1 mm is carried in tenths with the top bit set,
/// a larger one in whole millimetres.
pub proof fn lod_byte_meaning(tenths: u8, mm: u8)
    ensures
        tenths < 0x80 ==> lod_tenths_of((0x80 + tenths) as u8) == tenths,
        mm < 0x80 ==> lod_tenths_of(mm) == 10 * mm,
{
}

/// Removing leading `0x`s leaves a suffix of the text that does not start with
/// `0x`, and what was removed is `0x` repeated.
pub proof fn hex_prefix_removal(s: Seq<char>)
    ensures
        ({
            let t = strip_hex_prefix(s);
            let k = s.len() - t.len();
            &&& t.len() <= s.len()
            &&& t == s.subrange(k, s.len() as int)
            &&& k % 2 == 0
            &&& forall|i: int| 0 <= i < k ==> #[trigger] s[i] == (if i % 2 == 0 { '0' } else { 'x' })
            &&& !(t.len() >= 2 && t[0] == '0' && t[1] == 'x')
        }),
    decreases s.len(),
{
    if s.len() >= 2 && s[0] == '0' && s[1] == 'x' {
        let r = s.subrange(2, s.len() as int);
        hex_prefix_removal(r);
        let t = strip_hex_prefix(r);
        let k = s.len() - t.len();
        assert(t =~= s.subrange(k, s.len() as int));
        assert forall|i: int| 0 <= i < k implies #[trigger] s[i] == (if i % 2 == 0 { '0' } else { 'x' }) by {
            if i >= 2 {
                assert(s[i] == r[i - 2]);
            }
        }
    } else {
        assert(s =~= s.subrange(0, s.len() as int));
    }
}

proof fn lemma_leading_whitespace(s: Seq<char>)
    ensures
        leading_whitespace(s) <= s.len(),
        forall|i: int| 0 <= i < leading_whitespace(s) ==> is_whitespace(#[trigger] s[i]),
        leading_whitespace(s) < s.len() ==> !is_whitespace(s[leading_whitespace(s) as int]),
    decreases s.len(),
{
    if s.len() > 0 && is_whitespace(s[0]) {
        let r = s.subrange(1, s.len() as int);
        lemma_leading_whitespace(r);
        assert forall|i: int| 0 <= i < leading_whitespace(s) implies is_whitespace(#[trigger] s[i]) by {
            if i > 0 {
                assert(s[i] == r[i - 1]);
            }
        }
    }
}

proof fn lemma_trailing_whitespace(s: Seq<char>)
    ensures
        trailing_whitespace(s) <= s.len(),
        forall|i: int| s.len() - trailing_whitespace(s) <= i < s.len() ==> is_whitespace(#[trigger] s[i]),
        trailing_whitespace(s) < s.len() ==> !is_whitespace(s[s.len() - 1 - trailing_whitespace(s)]),
    decreases s.len(),
{
    if s.len() > 0 && is_whitespace(s[s.len() - 1]) {
        let r = s.subrange(0, s.len() - 1);
        lemma_trailing_whitespace(r);
        assert forall|i: int| s.len() - trailing_whitespace(s) <= i < s.len() implies is_whitespace(
            #[trigger] s[i],
        ) by {
            if i < s.len() - 1 {
                assert(s[i] == r[i]);
            }
        }
    }
}

/// Trimming keeps a contiguous part of the text that neither starts nor ends
/// with whitespace, and cuts only whitespace before and after it.
pub proof fn trimming_cuts_only_whitespace(s: Seq<char>)
    ensures
        ({
            let t = trimmed(s);
            exists|a: int, b: int|
                0 <= a <= b <= s.len() && t == s.subrange(a, b) && (forall|i: int|
                    0 <= i < a ==> is_whitespace(#[trigger] s[i])) && (forall|i: int|
                    b <= i < s.len() ==> is_whitespace(#[trigger] s[i])) && (t.len() > 0 ==> !is_whitespace(t[0])
                    && !is_whitespace(t[t.len() - 1]))
        }),
{
    lemma_leading_whitespace(s);
    lemma_trailing_whitespace(s);
    let a = leading_whitespace(s) as int;
    if a >= s.len() {
        assert(trimmed(s) =~= s.subrange(a, a));
        assert(forall|i: int| a <= i < s.len() ==> is_whitespace(#[trigger] s[i]));
    } else {
        let b = s.len() - trailing_whitespace(s);
        assert(!is_whitespace(s[a]));
        assert(a < b) by {
            if b <= a {
                assert(is_whitespace(s[a]));
            }
        }
        assert(trimmed(s) == s.subrange(a, b));
        assert(trimmed(s)[0] == s[a]);
        assert(trimmed(s)[trimmed(s).len() - 1] == s[b - 1]);
    }
}

/// A response from a device with hid index 0 is laid out one byte later than
/// the same response from a device with hid index 1: every value read from it
/// is the same.
pub proof fn hid_index_shifts_responses_by_one_byte(r0: Seq<u8>, r1: Seq<u8>, count: u8, i: int)
    requires
        r0.len() == 64,
        r1.len() == 64,
        forall|j: int| 1 <= j < 64 ==> #[trigger] r0[j] == r1[j - 1],
    ensures
        value_byte(r0, 0) == value_byte(r1, 1),
        firmware_text(r0, 0) == firmware_text(r1, 1),
        battery_of(r0[7], r0[8]) == battery_of(r1[6], r1[7]),
        be16_at(r0, 8) == be16_at(r1, 7),
        r0[7] == r1[6],
        dpi_stage_count(count, 0) <= dpi_stage_count(count, 1),
        0 <= i < dpi_stage_count(count, 0) ==> dpi_stage_at(r0, 0, i) == dpi_stage_at(r1, 1, i),
{
    assert(r0[8] == r1[7]);
    assert(r0[9] == r1[8]);
    assert(r0[10] == r1[9]);
    assert(r0[7] == r1[6]);
    if 0 <= i < dpi_stage_count(count, 0) {
        let x = 9 + 4 * i;
        assert(r0[x] == r1[x - 1]);
        assert(r0[x + 1] == r1[x]);
        assert(r0[x + 2] == r1[x + 1]);
        assert(r0[x + 3] == r1[x + 2]);
    }
}

} // verus!
