use wl_mouse::hyprland::{strip_prefix, trim_hex_prefix, window_address_for_pid, FocusState, WindowLookupError};

#[test]
fn window_of_a_process() {
    let json = br#"[{"pid": 7, "address": "0x1111"}, {"pid": 12, "address": "0x55aa"}, {"pid": 12, "address": "0x77"}]"#;
    assert_eq!(window_address_for_pid(json, 12).unwrap(), "55aa");
    assert_eq!(window_address_for_pid(json, 7).unwrap(), "1111");
}

#[test]
fn client_without_address_is_skipped() {
    let json = br#"[{"pid": 12}, {"pid": 12, "address": 5}, {"pid": 12, "address": "0xabc"}]"#;
    assert_eq!(window_address_for_pid(json, 12).unwrap(), "abc");
}

#[test]
fn window_not_found() {
    let json = br#"[{"pid": 7, "address": "0x1111"}, {"pid": -12, "address": "0x2"}]"#;
    assert!(matches!(window_address_for_pid(json, 12), Err(WindowLookupError::NotFound(12))));
    assert!(matches!(window_address_for_pid(b"[]", 1), Err(WindowLookupError::NotFound(1))));
}

#[test]
fn client_list_that_is_not_json() {
    assert!(matches!(window_address_for_pid(b"not json", 1), Err(WindowLookupError::Json(_))));
    assert!(matches!(window_address_for_pid(br#"{"pid": 1}"#, 1), Err(WindowLookupError::Json(_))));
}

#[test]
fn hex_prefix_removal() {
    assert_eq!(trim_hex_prefix("0x55aa"), "55aa");
    assert_eq!(trim_hex_prefix("0x0x12"), "12");
    assert_eq!(trim_hex_prefix("0x"), "");
    assert_eq!(trim_hex_prefix("x0"), "x0");
    assert_eq!(trim_hex_prefix("00x1"), "00x1");
}

#[test]
fn prefix_stripping() {
    assert_eq!(strip_prefix("activewindowv2>>abc", "activewindowv2>>"), Some("abc"));
    assert_eq!(strip_prefix("activewindow>>abc", "activewindowv2>>"), None);
    assert_eq!(strip_prefix("ab", "abc"), None);
}

#[test]
fn focus_changes_are_reported_once() {
    let mut st = FocusState::new("55aa".to_string());
    assert!(!st.focused);
    assert_eq!(st.observe("activewindowv2>>1234\n"), None);
    assert_eq!(st.observe("  activewindowv2>>55aa \n"), Some(true));
    assert!(st.focused);
    assert_eq!(st.observe("activewindowv2>>55aa"), None);
    assert_eq!(st.observe("workspace>>2"), None);
    assert_eq!(st.observe("activewindowv2>>1234"), Some(false));
    assert_eq!(st.observe("activewindowv2>>1234"), None);
    assert_eq!(st.window_addr, "55aa");
}

#[test]
fn focus_lines_trimmed_of_unicode_whitespace() {
    let mut st = FocusState::new("55aa".to_string());
    assert_eq!(st.observe("\u{3000}\tactivewindowv2>>55aa\u{2029}\u{a0}"), Some(true));
    assert_eq!(st.observe("activewindowv2>>55aa\u{200b}"), Some(false));
}
