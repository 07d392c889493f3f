use wl_mouse::wrap::{restore_writes, wrap_rate, wrap_writes, SavedSettings, WrapTargets};

#[test]
fn default_rate_is_8000() {
    assert_eq!(wrap_rate(None), 8000);
    assert_eq!(wrap_rate(Some(1000)), 1000);
    assert_eq!(wrap_rate(Some(500)), 500);
}

#[test]
fn default_rate_applies_with_dpi_alone() {
    let targets = WrapTargets { rate: Some(wrap_rate(None)), dpi: Some(800), debounce: None };
    let saved = SavedSettings { rate: Some(1000), dpi: Some((0, vec![(800, 800)])), debounce: None };
    let w = wrap_writes(&targets, &saved);
    assert_eq!((w.rate, w.dpi_stages, w.debounce), (Some(8000), None, None));
    let r = restore_writes(&targets, &saved);
    assert_eq!((r.rate, r.dpi_stages, r.debounce), (Some(1000), None, None));
}

#[test]
fn writes_change_only_what_differs() {
    let targets = WrapTargets { rate: Some(8000), dpi: Some(1600), debounce: Some(4) };
    let saved = SavedSettings {
        rate: Some(1000),
        dpi: Some((1, vec![(400, 400), (800, 800), (1600, 1600)])),
        debounce: Some(4),
    };
    let w = wrap_writes(&targets, &saved);
    assert_eq!(w.rate, Some(8000));
    assert_eq!(w.dpi_stages, Some(vec![(1600, 1600), (1600, 1600), (1600, 1600)]));
    assert_eq!(w.debounce, None);
    let r = restore_writes(&targets, &saved);
    assert_eq!(r.rate, Some(1000));
    assert_eq!(r.dpi_stages, Some(vec![(400, 400), (800, 800), (1600, 1600)]));
    assert_eq!(r.debounce, None);
}

#[test]
fn nothing_to_write_when_settings_match() {
    let targets = WrapTargets { rate: Some(1000), dpi: Some(800), debounce: None };
    let saved = SavedSettings { rate: Some(1000), dpi: Some((1, vec![(400, 400), (800, 1600)])), debounce: None };
    let w = wrap_writes(&targets, &saved);
    assert_eq!((w.rate, w.dpi_stages, w.debounce), (None, None, None));
    let r = restore_writes(&targets, &saved);
    assert_eq!((r.rate, r.dpi_stages, r.debounce), (None, None, None));
}

#[test]
fn missing_active_stage_counts_as_zero_dpi() {
    let targets = WrapTargets { rate: None, dpi: Some(800), debounce: None };
    let saved = SavedSettings { rate: None, dpi: Some((5, vec![(400, 400)])), debounce: None };
    assert_eq!(wrap_writes(&targets, &saved).dpi_stages, Some(vec![(800, 800)]));
    let targets = WrapTargets { rate: None, dpi: Some(0), debounce: None };
    assert_eq!(wrap_writes(&targets, &saved).dpi_stages, None);
}

#[test]
fn wrap_restores_settings_on_values() {
    let orig = (2000u16, vec![(400u16, 400u16), (3200, 3200)], 8u8);
    let targets = WrapTargets { rate: Some(8000), dpi: Some(1600), debounce: Some(2) };
    let saved = SavedSettings { rate: Some(orig.0), dpi: Some((0, orig.1.clone())), debounce: Some(orig.2) };
    let mut dev = orig.clone();
    let w = wrap_writes(&targets, &saved);
    if let Some(r) = w.rate { dev.0 = r; }
    if let Some(s) = w.dpi_stages { dev.1 = s; }
    if let Some(d) = w.debounce { dev.2 = d; }
    assert_eq!(dev, (8000, vec![(1600, 1600), (1600, 1600)], 2));
    let r = restore_writes(&targets, &saved);
    if let Some(x) = r.rate { dev.0 = x; }
    if let Some(s) = r.dpi_stages { dev.1 = s; }
    if let Some(d) = r.debounce { dev.2 = d; }
    assert_eq!(dev, orig);
}
