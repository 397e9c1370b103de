use mental_os::shortcuts::{
    is_help_fallback_shortcut, key_matches, matches_shortcut, KeyPress, ShortcutBindings,
};

fn press(name: &str, unicode: Option<char>, ctrl: bool, shift: bool) -> KeyPress {
    KeyPress { name: name.to_string(), unicode, ctrl, shift, alt: false }
}

#[test]
fn slash_shortcut_matches_question_key() {
    assert!(matches_shortcut("Ctrl+Slash", &press("question", Some('?'), true, true)));
}

#[test]
fn question_shortcut_matches_slash_with_shift() {
    assert!(matches_shortcut("Ctrl+Question", &press("slash", Some('/'), true, true)));
}

#[test]
fn slash_shortcut_matches_numpad_divide() {
    assert!(matches_shortcut("Ctrl+Slash", &press("KP_Divide", Some('/'), true, false)));
}

#[test]
fn implicit_shift_is_allowed_for_shifted_symbols() {
    assert!(matches_shortcut("Ctrl+Equal", &press("plus", Some('+'), true, true)));
    assert!(matches_shortcut("Ctrl+Slash", &press("question", Some('?'), true, true)));
}

#[test]
fn unexpected_shift_is_rejected_for_plain_keys() {
    assert!(!matches_shortcut("Ctrl+L", &press("l", Some('l'), true, true)));
}

#[test]
fn modifiers_must_match_exactly() {
    assert!(matches_shortcut("Ctrl+L", &press("l", Some('l'), true, false)));
    assert!(!matches_shortcut("Ctrl+L", &press("l", Some('l'), false, false)));
    assert!(!matches_shortcut("Ctrl+Shift+M", &press("m", Some('m'), true, false)));
    assert!(matches_shortcut("Ctrl+Shift+M", &press("M", Some('M'), true, true)));
    let mut alt = press("l", Some('l'), true, false);
    alt.alt = true;
    assert!(!matches_shortcut("Ctrl+L", &alt));
    assert!(!matches_shortcut("not a shortcut+", &press("l", None, true, false)));
}

#[test]
fn key_tokens_match_their_keys() {
    assert!(key_matches("question", "slash", true));
    assert!(!key_matches("question", "slash", false));
    assert!(key_matches("escape", "Escape", false));
    assert!(key_matches("tab", "Tab", false));
    assert!(key_matches("f1", "F1", false));
    assert!(!key_matches("minus", "plus", false));
}

#[test]
fn bindings_match_through_their_shortcut() {
    let b = ShortcutBindings::from_pairs(vec![("new_chat".to_string(), "Ctrl+N".to_string())]);
    assert!(b.matches("new_chat", &press("n", Some('n'), true, false)));
    assert!(!b.matches("new_chat", &press("m", Some('m'), true, false)));
}

#[test]
fn help_fallback_accepts_f1_without_ctrl() {
    assert!(is_help_fallback_shortcut(&press("F1", None, false, false)));
}

#[test]
fn help_fallback_accepts_ctrl_slash_variants() {
    assert!(is_help_fallback_shortcut(&press("slash", Some('/'), true, false)));
    assert!(is_help_fallback_shortcut(&press("question", Some('?'), true, true)));
    assert!(is_help_fallback_shortcut(&press("KP_Divide", Some('/'), true, false)));
}

#[test]
fn help_fallback_rejects_invalid_combinations() {
    assert!(!is_help_fallback_shortcut(&press("slash", Some('/'), false, false)));
    assert!(!is_help_fallback_shortcut(&press("F1", None, true, false)));
    assert!(!is_help_fallback_shortcut(&press("a", Some('a'), true, false)));
}
