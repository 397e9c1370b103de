use mental_os::error::MentalOSError;
use mental_os::shortcuts::{
    allows_implicit_shift, apply_shortcut_form_values, default_for,
    extract_action_id_from_validation_error, format_shortcut_line, is_supported_key_token,
    parse_shortcut, shortcut_definitions, validate_shortcut, ShortcutBindings,
};

#[test]
fn validates_defaults() {
    for def in shortcut_definitions() {
        validate_shortcut(def.default).expect("default shortcut should be valid");
    }
}

#[test]
fn compact_format_parses_without_plus_separator() {
    validate_shortcut("Ctrl/").expect("Ctrl/ should be accepted");
    validate_shortcut("Ctrl?").expect("Ctrl? should be accepted");
    validate_shortcut("ShiftTab").expect("ShiftTab should be accepted");
}

#[test]
fn rejects_invalid_shortcuts() {
    assert!(validate_shortcut("").is_err());
    assert!(validate_shortcut("Ctrl").is_err());
    assert!(validate_shortcut("Ctrl+Alt+Shift").is_err());
    assert!(validate_shortcut("Ctrl+Shift+FooBar").is_err());
    assert!(validate_shortcut("Ctrl+A+B").is_err());
}

#[test]
fn missing_binding_falls_back_to_default() {
    let bindings = ShortcutBindings::default();
    assert_eq!(bindings.get("missing_action"), "Ctrl+K");
}

#[test]
fn core_help_and_onboarding_shortcuts_are_present_and_valid() {
    let bindings = ShortcutBindings::default();
    assert_eq!(bindings.get("show_help"), "Ctrl+Slash");
    assert_eq!(bindings.get("show_onboarding"), "Ctrl+Shift+T");
    assert_eq!(bindings.get("open_tasks_browser"), "Ctrl+Shift+J");
    assert_eq!(bindings.get("open_sync_selection"), "Ctrl+Shift+S");
    validate_shortcut(&bindings.get("show_help")).expect("help shortcut should be valid");
    validate_shortcut(&bindings.get("show_onboarding"))
        .expect("onboarding shortcut should be valid");
    validate_shortcut(&bindings.get("open_tasks_browser"))
        .expect("tasks shortcut should be valid");
    validate_shortcut(&bindings.get("open_sync_selection"))
        .expect("sync selection shortcut should be valid");
}

#[test]
fn parse_reports_modifiers_and_lowercase_key() {
    let p = parse_shortcut(" ctrl + Shift + M ").unwrap();
    assert!(p.ctrl && p.shift && !p.alt);
    assert_eq!(p.key_token, "m");
    let p = parse_shortcut("Mod1+F12").unwrap();
    assert!(p.alt && !p.ctrl);
    assert_eq!(p.key_token, "f12");
    let p = parse_shortcut("ShiftTab").unwrap();
    assert!(p.shift);
    assert_eq!(p.key_token, "tab");
}

#[test]
fn parse_error_messages() {
    let msg = |c: &str| format!("{:?}", parse_shortcut(c).unwrap_err());
    assert_eq!(msg(""), "ConfigInvalid(\"Shortcut cannot be empty\")");
    assert_eq!(msg("Ctrl+A+B"), "ConfigInvalid(\"Invalid shortcut 'Ctrl+A+B': multiple key tokens\")");
    assert_eq!(msg("Ctrl"), "ConfigInvalid(\"Invalid shortcut 'Ctrl': missing key token\")");
    assert_eq!(
        msg("Ctrl+F25"),
        "ConfigInvalid(\"Unsupported key token 'f25' in 'Ctrl+F25'\")"
    );
}

#[test]
fn function_keys_follow_u8_parsing() {
    assert!(is_supported_key_token("f1"));
    assert!(is_supported_key_token("f24"));
    assert!(is_supported_key_token("f+5"));
    assert!(is_supported_key_token("f007"));
    assert!(!is_supported_key_token("f0"));
    assert!(!is_supported_key_token("f25"));
    assert!(!is_supported_key_token("f256"));
    assert!(is_supported_key_token("f"));
    assert!(is_supported_key_token("z"));
    assert!(!is_supported_key_token("foobar"));
    assert!(allows_implicit_shift("slash"));
    assert!(!allows_implicit_shift("l"));
}

#[test]
fn set_trims_and_get_returns_binding() {
    let mut bindings = ShortcutBindings::default();
    bindings.set("show_help", "  Ctrl+Question ");
    assert_eq!(bindings.get("show_help"), "Ctrl+Question");
    assert_eq!(bindings.get("manage_shortcuts"), "Ctrl+Comma");
    assert_eq!(default_for("font_reset"), "Ctrl+0");
}

#[test]
fn fill_missing_defaults_keeps_user_bindings() {
    let mut bindings =
        ShortcutBindings::from_pairs(vec![("show_help".to_string(), "Ctrl+Question".to_string())]);
    bindings.fill_missing_defaults();
    assert_eq!(bindings.get("show_help"), "Ctrl+Question");
    assert_eq!(bindings.get("manage_shortcuts"), "Ctrl+Comma");
    assert_eq!(bindings.to_pairs().len(), 14);
}

#[test]
fn apply_shortcut_form_values_updates_and_preserves_existing() {
    let current = ShortcutBindings::default();
    let form_values = vec![("show_help".to_string(), "Ctrl+Question".to_string())];

    let updated = apply_shortcut_form_values(&current, &form_values)
        .expect("valid shortcut update should succeed");
    assert_eq!(updated.get("show_help"), "Ctrl+Question");
    assert_eq!(updated.get("manage_shortcuts"), current.get("manage_shortcuts"));
}

#[test]
fn apply_shortcut_form_values_rejects_invalid_entry() {
    let current = ShortcutBindings::default();
    let form_values = vec![("show_help".to_string(), "Ctrl".to_string())];

    let err = apply_shortcut_form_values(&current, &form_values).unwrap_err();
    match err {
        MentalOSError::ConfigInvalid(m) => assert!(m.starts_with("Show shortcuts help -> config is invalid: ")),
        other => panic!("unexpected error {:?}", other),
    }
}

#[test]
fn extract_action_id_from_validation_error_finds_definition() {
    let msg = "Show shortcuts help -> config is invalid";
    let action = extract_action_id_from_validation_error(msg);
    assert_eq!(action.map(|v| v.0), Some("show_help"));
    assert_eq!(extract_action_id_from_validation_error("nothing"), None);
}

#[test]
fn shortcut_line_keeps_combo_prefix() {
    let line = format_shortcut_line("Ctrl+K", "Open app launcher", "Open apps dialog");
    assert!(line.starts_with("Ctrl+K"));
    assert!(line.contains("Open app launcher"));
    assert!(line.contains("Open apps dialog"));
    assert_eq!(line, "Ctrl+K             Open app launcher \u{2014} Open apps dialog");
}
