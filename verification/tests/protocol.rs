use wl_mouse::consts::REPORT_SIZE;
use wl_mouse::report::{
    build_factory_reset, build_get_active_dpi, build_get_angle_snap, build_get_angle_tune,
    build_get_battery, build_get_debounce, build_get_dpi_stages, build_get_firmware, build_get_lod,
    build_get_motion_sync, build_get_polling_rate, build_get_profile_id, build_get_ripple_control,
    build_get_sleep_time, build_get_sn, build_set_active_dpi, build_set_angle_snap,
    build_set_angle_tune, build_set_debounce, build_set_dpi_stages, build_set_lod_raw,
    build_set_motion_sync, build_set_polling_rate, build_set_ripple_control, build_set_sleep_time,
    parse_active_dpi, parse_angle_tune, parse_battery, parse_dpi_stages, parse_firmware,
    parse_lod_tenths, parse_polling_rate, parse_profile_id, parse_sleep_time, parse_sn, resp_bool,
    resp_u8,
};

fn report(bytes: &[(usize, u8)]) -> [u8; REPORT_SIZE] {
    let mut r = [0u8; REPORT_SIZE];
    for &(i, b) in bytes {
        r[i] = b;
    }
    r
}

#[test]
fn profile_get_requests_have_their_layout() {
    assert_eq!(build_get_polling_rate(3), report(&[(2, 2), (3, 2), (4, 1), (5, 0x80), (6, 3)]));
    assert_eq!(build_get_active_dpi(1), report(&[(2, 2), (3, 2), (4, 1), (5, 0x82), (6, 1)]));
    assert_eq!(build_get_lod(0), report(&[(2, 2), (3, 2), (4, 1), (5, 0x88)]));
    assert_eq!(build_get_debounce(2), report(&[(2, 2), (3, 2), (4, 0), (5, 0x88), (6, 2)]));
    assert_eq!(build_get_angle_snap(0), report(&[(2, 2), (3, 2), (4, 1), (5, 0x84)]));
    assert_eq!(build_get_motion_sync(0), report(&[(2, 2), (3, 2), (4, 1), (5, 0x89)]));
    assert_eq!(build_get_sleep_time(4), report(&[(2, 2), (3, 3), (4, 0), (5, 0x87), (6, 4)]));
    assert_eq!(build_get_angle_tune(0), report(&[(2, 2), (3, 2), (4, 1), (5, 0x94)]));
    assert_eq!(build_get_ripple_control(0), report(&[(2, 2), (3, 2), (4, 1), (5, 0x8A)]));
}

#[test]
fn device_requests_have_their_layout() {
    assert_eq!(build_get_firmware(0x02), report(&[(2, 2), (3, 0x10), (5, 0x81)]));
    assert_eq!(build_get_firmware(0x00), report(&[(3, 0x10), (5, 0x81)]));
    assert_eq!(build_get_battery(), report(&[(2, 2), (3, 2), (5, 0x83)]));
    assert_eq!(build_get_profile_id(), report(&[(2, 2), (3, 1), (5, 0x85)]));
    assert_eq!(build_get_sn(), report(&[(2, 2), (3, 0x14), (5, 0x82)]));
    assert_eq!(
        build_factory_reset(),
        report(&[(2, 2), (3, 2), (5, 0), (6, 0xC0), (7, 0x01)])
    );
}

#[test]
fn set_requests_carry_their_value() {
    assert_eq!(build_set_active_dpi(1, 3), report(&[(2, 2), (3, 2), (4, 1), (5, 0x02), (6, 1), (7, 3)]));
    assert_eq!(build_set_debounce(0, 4), report(&[(2, 2), (3, 2), (4, 0), (5, 0x08), (7, 4)]));
    assert_eq!(build_set_angle_snap(0, true), report(&[(2, 2), (3, 2), (4, 1), (5, 0x04), (7, 1)]));
    assert_eq!(build_set_motion_sync(2, false), report(&[(2, 2), (3, 2), (4, 1), (5, 0x09), (6, 2)]));
    assert_eq!(build_set_ripple_control(0, true), report(&[(2, 2), (3, 2), (4, 1), (5, 0x0A), (7, 1)]));
    assert_eq!(build_set_lod_raw(0, 0x87), report(&[(2, 2), (3, 2), (4, 1), (5, 0x08), (7, 0x87)]));
    assert_eq!(build_get_dpi_stages(1, 6), report(&[(2, 2), (3, 0x0A), (4, 1), (5, 0x81), (6, 1), (7, 6)]));
}

#[test]
fn polling_rate_codes() {
    assert_eq!(build_set_polling_rate(0, 125)[7], 8);
    assert_eq!(build_set_polling_rate(0, 250)[7], 4);
    assert_eq!(build_set_polling_rate(0, 500)[7], 2);
    assert_eq!(build_set_polling_rate(0, 1000)[7], 1);
    assert_eq!(build_set_polling_rate(0, 2000)[7], 32);
    assert_eq!(build_set_polling_rate(0, 4000)[7], 64);
    assert_eq!(build_set_polling_rate(0, 8000)[7], 128);
    assert_eq!(build_set_polling_rate(0, 999)[7], 1);
    assert_eq!(build_set_polling_rate(5, 8000), report(&[(2, 2), (3, 2), (4, 1), (5, 0), (6, 5), (7, 128)]));
}

#[test]
fn polling_rate_parsing() {
    assert_eq!(parse_polling_rate(&report(&[(8, 8)]), 0), 125);
    assert_eq!(parse_polling_rate(&report(&[(7, 16)]), 1), 1000);
    assert_eq!(parse_polling_rate(&report(&[(8, 1)]), 0), 1000);
    assert_eq!(parse_polling_rate(&report(&[(8, 128)]), 0), 8000);
    assert_eq!(parse_polling_rate(&report(&[(8, 3)]), 0), 3);
}

#[test]
fn polling_rate_round_trip_on_values() {
    for rate in [125u16, 250, 500, 1000, 2000, 4000, 8000] {
        let req = build_set_polling_rate(0, rate);
        assert_eq!(parse_polling_rate(&req, 1), rate);
    }
    let req = build_set_polling_rate(0, 300);
    assert_eq!(parse_polling_rate(&req, 1), 1000);
}

#[test]
fn response_value_byte_moves_with_hid_index() {
    let r = report(&[(7, 11), (8, 22)]);
    assert_eq!(resp_u8(&r, 0), 22);
    assert_eq!(resp_u8(&r, 1), 11);
    assert!(resp_bool(&r, 0));
    assert!(!resp_bool(&report(&[]), 0));
}

#[test]
fn firmware_text() {
    let r = report(&[(7, 1), (8, 23), (9, 255), (10, 0)]);
    assert_eq!(parse_firmware(&r, 0), "1.23.255.0");
    let r = report(&[(6, 2), (7, 0), (8, 9), (9, 100)]);
    assert_eq!(parse_firmware(&r, 1), "2.0.9.100");
}

#[test]
fn battery_bytes_in_either_order() {
    assert_eq!(parse_battery(&report(&[(7, 85), (8, 1)]), 0), (85, true));
    assert_eq!(parse_battery(&report(&[(7, 0), (8, 60)]), 0), (60, false));
    assert_eq!(parse_battery(&report(&[(7, 1), (8, 90)]), 0), (90, true));
    assert_eq!(parse_battery(&report(&[(6, 40), (7, 0)]), 1), (40, false));
}

#[test]
fn dpi_stage_parsing() {
    let r = report(&[(9, 0x03), (10, 0x20), (11, 0x03), (12, 0x20), (13, 0x06), (14, 0x40), (15, 0x04), (16, 0xB0)]);
    assert_eq!(parse_dpi_stages(&r, 2, 0), vec![(800, 800), (1600, 1200)]);
    assert_eq!(parse_dpi_stages(&r, 0, 0), vec![]);
}

#[test]
fn dpi_stage_parsing_stops_at_report_end() {
    let r = report(&[]);
    assert_eq!(parse_dpi_stages(&r, 20, 0).len(), 13);
    assert_eq!(parse_dpi_stages(&r, 20, 1).len(), 14);
    assert_eq!(parse_dpi_stages(&r, 255, 9).len(), 16);
    assert_eq!(parse_dpi_stages(&r, 0, 200), vec![]);
}

#[test]
fn dpi_stage_request_layout() {
    let buf = build_set_dpi_stages(2, &[(400, 400), (800, 1600)]);
    assert_eq!(
        buf,
        report(&[
            (2, 2), (3, 0x1A), (4, 1), (5, 1), (6, 2), (7, 2),
            (8, 0x01), (9, 0x90), (10, 0x01), (11, 0x90),
            (12, 0x03), (13, 0x20), (14, 0x06), (15, 0x40),
        ])
    );
}

#[test]
fn dpi_stages_round_trip_on_values() {
    let stages = [(400u16, 400u16), (800, 1600), (3200, 3200), (26000, 65535)];
    let buf = build_set_dpi_stages(0, &stages);
    assert_eq!(parse_dpi_stages(&buf, stages.len() as u8, 1), stages.to_vec());
    let many: Vec<(u16, u16)> = (0..14).map(|i| (i * 100 + 1, i * 200 + 3)).collect();
    let buf = build_set_dpi_stages(0, &many);
    assert_eq!(parse_dpi_stages(&buf, 14, 1), many);
}

#[test]
fn active_dpi_counts_from_zero() {
    assert_eq!(parse_active_dpi(&report(&[(8, 3)]), 0), 2);
    assert_eq!(parse_active_dpi(&report(&[(8, 0)]), 0), 0);
    assert_eq!(parse_active_dpi(&report(&[(7, 1)]), 1), 0);
}

#[test]
fn lod_tenths() {
    assert_eq!(parse_lod_tenths(&report(&[(8, 0x87)]), 0), 7);
    assert_eq!(parse_lod_tenths(&report(&[(8, 2)]), 0), 20);
    assert_eq!(parse_lod_tenths(&report(&[(7, 1)]), 1), 10);
    assert_eq!(parse_lod_tenths(&report(&[(8, 0xFF)]), 0), 127);
}

#[test]
fn sleep_time_layout_and_round_trip() {
    let buf = build_set_sleep_time(1, 300);
    assert_eq!(buf, report(&[(2, 2), (3, 3), (4, 0), (5, 0x07), (6, 1), (7, 0x01), (8, 0x2C)]));
    assert_eq!(parse_sleep_time(&buf, 1), 300);
    assert_eq!(parse_sleep_time(&report(&[(8, 0xFF), (9, 0x00)]), 0), 0xFF00);
    assert_eq!(parse_sleep_time(&build_set_sleep_time(0, 0xFFFF), 1), 0xFFFF);
}

#[test]
fn angle_tune_two_complement() {
    assert_eq!(build_set_angle_tune(0, -5)[7], 251);
    assert_eq!(build_set_angle_tune(0, 30)[7], 30);
    assert_eq!(build_set_angle_tune(0, -128)[7], 128);
    assert_eq!(build_set_angle_tune(0, -1)[7], 255);
    assert_eq!(parse_angle_tune(&report(&[(8, 251)]), 0), -5);
    assert_eq!(parse_angle_tune(&report(&[(8, 30)]), 0), 30);
}

#[test]
fn angle_tune_round_trip_on_values() {
    for v in [-128i8, -30, -1, 0, 1, 30, 127] {
        assert_eq!(parse_angle_tune(&build_set_angle_tune(0, v), 1), v);
    }
}

#[test]
fn flag_round_trip_on_values() {
    assert!(resp_bool(&build_set_angle_snap(0, true), 1));
    assert!(!resp_bool(&build_set_motion_sync(0, false), 1));
    assert!(resp_bool(&build_set_ripple_control(3, true), 1));
}

#[test]
fn serial_number_stops_at_unprintable() {
    let mut r = report(&[]);
    r[9..13].copy_from_slice(b"SN12");
    r[14] = b'X';
    assert_eq!(parse_sn(&r, 0), "SN12");
    assert_eq!(parse_sn(&r, 1), "");
    let mut r = report(&[]);
    r[8..11].copy_from_slice(b"A-Z");
    r[11] = 0xFF;
    assert_eq!(parse_sn(&r, 1), "A-Z");
    let mut full = [b'x'; REPORT_SIZE];
    full[0] = 0;
    assert_eq!(parse_sn(&full, 0).len(), REPORT_SIZE - 9);
    let mut spaced = report(&[]);
    spaced[9..12].copy_from_slice(b"a b");
    assert_eq!(parse_sn(&spaced, 0), "a");
}

#[test]
fn profile_id_byte() {
    assert_eq!(parse_profile_id(&report(&[(7, 2)]), 0), 2);
    assert_eq!(parse_profile_id(&report(&[(6, 3)]), 1), 3);
}
