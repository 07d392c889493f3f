use wl_mouse::devices::{choose_device, pid_for_path, pid_name, select_devices, DetectError, HidEntry};

fn entry(vid: u16, pid: u16, page: u16, usage: u16, path: &str) -> HidEntry {
    HidEntry { vendor_id: vid, product_id: pid, usage_page: page, usage, path: path.to_string() }
}

#[test]
fn known_and_unknown_names() {
    assert_eq!(pid_name(0xA864), "HUAN (wired)");
    assert_eq!(pid_name(0xA870), "BEAST X PRO (dongle)");
    assert_eq!(pid_name(0xA882), "WLmouse (1K dongle)");
    assert_eq!(pid_name(0x1234), "Unknown (0x1234)");
    assert_eq!(pid_name(0x00ab), "Unknown (0x00ab)");
    assert_eq!(pid_name(0xFFFF), "Unknown (0xffff)");
}

#[test]
fn selection_keeps_configuration_interfaces_only() {
    let entries = vec![
        entry(0x1234, 0xA871, 0xFFFF, 0, "/dev/hidraw0"),
        entry(0x36A7, 0xA871, 0x0001, 0, "/dev/hidraw1"),
        entry(0x36A7, 0xA871, 0xFFFF, 1, "/dev/hidraw2"),
        entry(0x36A7, 0xA871, 0xFFFF, 0, "/dev/hidraw3"),
    ];
    let found = select_devices(&entries);
    assert_eq!(found, vec![("BEAST X PRO (wired)".to_string(), 0xA871, "/dev/hidraw3".to_string())]);
}

#[test]
fn selection_sorts_and_keeps_first_interface_per_device() {
    let entries = vec![
        entry(0x36A7, 0xA875, 0xFFFF, 0, "/dev/hidraw5"),
        entry(0x36A7, 0xA864, 0xFFFF, 0, "/dev/hidraw1"),
        entry(0x36A7, 0xA875, 0xFFFF, 0, "/dev/hidraw7"),
        entry(0x36A7, 0xBEEF, 0xFFFF, 0, "/dev/hidraw9"),
    ];
    let found = select_devices(&entries);
    assert_eq!(
        found,
        vec![
            ("HUAN (wired)".to_string(), 0xA864, "/dev/hidraw1".to_string()),
            ("YING (wired)".to_string(), 0xA875, "/dev/hidraw5".to_string()),
            ("Unknown (0xbeef)".to_string(), 0xBEEF, "/dev/hidraw9".to_string()),
        ]
    );
}

#[test]
fn dongle_hidden_when_wired_present() {
    let entries = vec![
        entry(0x36A7, 0xA870, 0xFFFF, 0, "/dev/hidraw0"),
        entry(0x36A7, 0xA871, 0xFFFF, 0, "/dev/hidraw1"),
        entry(0x36A7, 0xA872, 0xFFFF, 0, "/dev/hidraw2"),
    ];
    let found = select_devices(&entries);
    assert_eq!(
        found,
        vec![
            ("BEAST X PRO (wired)".to_string(), 0xA871, "/dev/hidraw1".to_string()),
            ("STRIDER (dongle)".to_string(), 0xA872, "/dev/hidraw2".to_string()),
        ]
    );
}

#[test]
fn selection_of_nothing() {
    assert!(select_devices(&vec![]).is_empty());
    assert!(select_devices(&vec![entry(1, 2, 3, 4, "x")]).is_empty());
}

#[test]
fn choosing_a_device() {
    assert_eq!(choose_device(vec![]), Err(DetectError::NoDevice));
    let one = ("YING (wired)".to_string(), 0xA875u16, "/dev/hidraw4".to_string());
    assert_eq!(choose_device(vec![one.clone()]), Ok(one.clone()));
    let two = ("YING (dongle)".to_string(), 0xA874u16, "/dev/hidraw5".to_string());
    assert_eq!(choose_device(vec![one, two]), Err(DetectError::MultipleDevices));
}

#[test]
fn product_id_of_a_path() {
    let entries = vec![
        entry(0x36A7, 0xA864, 0xFFFF, 0, "/dev/hidraw0"),
        entry(0x36A7, 0xA863, 0xFFFF, 0, "/dev/hidraw1"),
        entry(0x36A7, 0xA866, 0x0001, 0, "/dev/hidraw1"),
    ];
    assert_eq!(pid_for_path(&entries, "/dev/hidraw1"), 0xA863);
    assert_eq!(pid_for_path(&entries, "/dev/hidraw0"), 0xA864);
    assert_eq!(pid_for_path(&entries, "/dev/hidraw9"), 0);
}
