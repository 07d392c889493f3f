use wl_mouse::consts::SLEEP_MAX_VAL;
use wl_mouse::settings::{
    check_angle_tune, check_polling_rate, check_stage, flag_from_word, parse_bool, sleep_seconds_for_minutes,
    update_dpi_stage, SettingError,
};
use wl_mouse::types::{dpi_stages_from_raw, normalize_sleep_time, DpiStage};

#[test]
fn flag_words_in_any_case() {
    assert_eq!(parse_bool("on"), Ok(true));
    assert_eq!(parse_bool("ON"), Ok(true));
    assert_eq!(parse_bool("Yes"), Ok(true));
    assert_eq!(parse_bool("1"), Ok(true));
    assert_eq!(parse_bool("Enable"), Ok(true));
    assert_eq!(parse_bool("TRUE"), Ok(true));
    assert_eq!(parse_bool("off"), Ok(false));
    assert_eq!(parse_bool("Disable"), Ok(false));
    assert_eq!(parse_bool("0"), Ok(false));
    assert_eq!(parse_bool("NO"), Ok(false));
    assert_eq!(parse_bool("False"), Ok(false));
}

#[test]
fn unknown_flag_word_is_refused() {
    assert_eq!(parse_bool("maybe"), Err(SettingError::InvalidFlag("maybe".to_string())));
    assert_eq!(parse_bool(""), Err(SettingError::InvalidFlag(String::new())));
    assert_eq!(parse_bool(" on"), Err(SettingError::InvalidFlag(" on".to_string())));
}

#[test]
fn flag_words_are_lower_case() {
    assert_eq!(flag_from_word("enable"), Some(true));
    assert_eq!(flag_from_word("no"), Some(false));
    assert_eq!(flag_from_word("ON"), None);
}

#[test]
fn polling_rates() {
    for r in [125u16, 250, 500, 1000, 2000, 4000, 8000] {
        assert_eq!(check_polling_rate(r), Ok(()));
    }
    assert_eq!(check_polling_rate(0), Err(SettingError::InvalidPollingRate(0)));
    assert_eq!(check_polling_rate(1001), Err(SettingError::InvalidPollingRate(1001)));
}

#[test]
fn stage_numbers() {
    assert_eq!(check_stage(1), Ok(()));
    assert_eq!(check_stage(6), Ok(()));
    assert_eq!(check_stage(0), Err(SettingError::InvalidStage(0)));
    assert_eq!(check_stage(7), Err(SettingError::InvalidStage(7)));
}

#[test]
fn updating_a_stage() {
    let stages = vec![(400, 400), (800, 800), (1600, 1600)];
    assert_eq!(
        update_dpi_stage(stages.clone(), 2, 1200, None),
        Ok(vec![(400, 400), (1200, 1200), (1600, 1600)])
    );
    assert_eq!(
        update_dpi_stage(stages.clone(), 3, 1200, Some(900)),
        Ok(vec![(400, 400), (800, 800), (1200, 900)])
    );
    assert_eq!(update_dpi_stage(stages.clone(), 4, 1200, None), Err(SettingError::MissingStage(4, 3)));
    assert_eq!(update_dpi_stage(stages.clone(), 0, 1200, None), Err(SettingError::InvalidStage(0)));
    assert_eq!(update_dpi_stage(stages, 9, 1200, None), Err(SettingError::InvalidStage(9)));
}

#[test]
fn sleep_minutes() {
    assert_eq!(sleep_seconds_for_minutes(0), Ok(SLEEP_MAX_VAL));
    assert_eq!(sleep_seconds_for_minutes(1), Ok(60));
    assert_eq!(sleep_seconds_for_minutes(30), Ok(1800));
    assert_eq!(sleep_seconds_for_minutes(31), Err(SettingError::InvalidSleepTime(31)));
}

#[test]
fn sleep_minutes_round_trip_on_values() {
    assert_eq!(normalize_sleep_time(sleep_seconds_for_minutes(0).unwrap()), 0);
    for m in 1..=30u16 {
        assert_eq!(normalize_sleep_time(sleep_seconds_for_minutes(m).unwrap()), m * 60);
    }
}

#[test]
fn normalized_sleep_times() {
    assert_eq!(normalize_sleep_time(0), 0);
    assert_eq!(normalize_sleep_time(300), 300);
    assert_eq!(normalize_sleep_time(0xFEFF), 0xFEFF);
    assert_eq!(normalize_sleep_time(0xFF00), 0);
    assert_eq!(normalize_sleep_time(0xFFFF), 0);
    for raw in [0u16, 5, 0xFF00, 0xFFFF] {
        assert_eq!(normalize_sleep_time(normalize_sleep_time(raw)), normalize_sleep_time(raw));
    }
}

#[test]
fn stages_with_active_marker() {
    let list = dpi_stages_from_raw(1, &[(400, 400), (800, 1600)]);
    assert_eq!(
        list,
        vec![
            DpiStage { x: 400, y: 400, active: false },
            DpiStage { x: 800, y: 1600, active: true },
        ]
    );
    assert!(dpi_stages_from_raw(5, &[(1, 1)]).iter().all(|s| !s.active));
    assert!(dpi_stages_from_raw(0, &[]).is_empty());
}

#[test]
fn angle_tune_range() {
    assert_eq!(check_angle_tune(-30), Ok(()));
    assert_eq!(check_angle_tune(0), Ok(()));
    assert_eq!(check_angle_tune(30), Ok(()));
    assert_eq!(check_angle_tune(31), Err(SettingError::InvalidAngleTune(31)));
    assert_eq!(check_angle_tune(-31), Err(SettingError::InvalidAngleTune(-31)));
    assert_eq!(check_angle_tune(-128), Err(SettingError::InvalidAngleTune(-128)));
}
