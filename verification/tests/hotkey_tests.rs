use dictation::hotkey::{
    on_toggle_key, parse_hotkey_binding, HotkeyMatcher, KeyToken, Modifiers, MouseButtonToken,
    ParsedHotkey, ToggleAction, ToggleKeyEvent, TriggerInput,
};

#[test]
fn parses_keyboard_and_mouse_chord() {
    let parsed = parse_hotkey_binding("Ctrl+K, Mouse4").expect("valid binding");
    assert_eq!(parsed.normalized, "Ctrl+K, Mouse4");
    assert_eq!(parsed.sequence.len(), 2);
}

#[test]
fn matcher_completes_sequence() {
    let parsed = parse_hotkey_binding("Ctrl+K, C").expect("valid binding");
    let mut m = HotkeyMatcher::new(parsed.sequence, 1200);

    let now = 5_000u64;
    assert!(!m.register_trigger(
        Modifiers {
            ctrl: true,
            ..Default::default()
        },
        TriggerInput::Key(KeyToken::Char('k')),
        now,
    ));

    assert!(m.register_trigger(
        Modifiers::default(),
        TriggerInput::Key(KeyToken::Char('c')),
        now + 100,
    ));
}

#[test]
fn parse_normalizes_case_order_and_spacing() {
    let parsed = parse_hotkey_binding("  alt + shift+CMD+ctrl+f5 ,x1,esc").expect("valid binding");
    assert_eq!(parsed.normalized, "Ctrl+Shift+Alt+Meta+F5, Mouse4, Escape");
    assert_eq!(parsed.sequence.len(), 3);
    assert_eq!(
        parsed.sequence[0].modifiers,
        Modifiers { ctrl: true, shift: true, alt: true, meta: true }
    );
    assert_eq!(parsed.sequence[0].trigger, TriggerInput::Key(KeyToken::Function(5)));
    assert_eq!(parsed.sequence[1].trigger, TriggerInput::Mouse(MouseButtonToken::Button4));
    assert_eq!(parsed.sequence[2].trigger, TriggerInput::Key(KeyToken::Escape));
}

#[test]
fn parse_named_keys_and_buttons() {
    let parsed =
        parse_hotkey_binding("grave, Space, return, TAB, Mouse1, rightmouse, mouse3, X2, F24, +F1")
            .expect_err("a leading plus is an empty token");
    assert_eq!(parsed, "hotkey has empty token");
    let parsed = parse_hotkey_binding("grave, Space, return, TAB, Mouse1, rightmouse, mouse3, X2, F24")
        .expect("valid binding");
    assert_eq!(
        parsed.normalized,
        "`, Space, Enter, Tab, MouseLeft, MouseRight, MouseMiddle, Mouse5, F24"
    );
}

#[test]
fn parse_reports_errors() {
    assert_eq!(parse_hotkey_binding("").unwrap_err(), "hotkey contains an empty chord step");
    assert_eq!(parse_hotkey_binding("Ctrl+K,,C").unwrap_err(), "hotkey contains an empty chord step");
    assert_eq!(parse_hotkey_binding("Ctrl++K").unwrap_err(), "hotkey has empty token");
    assert_eq!(parse_hotkey_binding("Ctrl+Shift").unwrap_err(), "hotkey step is missing trigger key/button");
    assert_eq!(
        parse_hotkey_binding("Ctrl+K+J").unwrap_err(),
        "each hotkey step can only have one trigger key/button"
    );
    assert_eq!(parse_hotkey_binding("Ctrl+Hello").unwrap_err(), "unsupported token 'Hello' in hotkey");
    assert_eq!(parse_hotkey_binding("F25").unwrap_err(), "unsupported token 'F25' in hotkey");
    assert_eq!(parse_hotkey_binding("F").unwrap_err(), "unsupported token 'F' in hotkey");
    assert_eq!(parse_hotkey_binding("F300").unwrap_err(), "unsupported token 'F300' in hotkey");
}

#[test]
fn parse_function_key_accepts_plus_sign_and_leading_zeros() {
    let parsed = parse_hotkey_binding("F007").expect("valid binding");
    assert_eq!(parsed.normalized, "F7");
    assert_eq!(parsed.sequence[0].trigger, TriggerInput::Key(KeyToken::Function(7)));
}

#[test]
fn normalized_text_parses_back_to_the_same_binding() {
    let first = parse_hotkey_binding("meta+shift+q, ctrl+`").expect("valid binding");
    let second = parse_hotkey_binding(&first.normalized).expect("canonical text parses");
    assert_eq!(first.normalized, second.normalized);
    assert_eq!(first.sequence, second.sequence);
    for input in ["  alt + shift+CMD+ctrl+f007 ,x1,esc", "grave", "Option+9", "super+MOUSE2, Tab"] {
        let a = parse_hotkey_binding(input).expect("valid binding");
        let b = parse_hotkey_binding(&a.normalized).expect("canonical text parses");
        assert_eq!(a.normalized, b.normalized);
        assert_eq!(a.sequence, b.sequence);
    }
}

#[test]
fn default_binding_is_ctrl_backquote() {
    let d = ParsedHotkey::default();
    assert_eq!(d.normalized, "Ctrl+`");
    assert_eq!(d.sequence.len(), 1);
    assert_eq!(d.sequence[0].trigger, TriggerInput::Key(KeyToken::Backquote));
}

fn ctrl() -> Modifiers {
    Modifiers { ctrl: true, ..Default::default() }
}

#[test]
fn matcher_drops_stale_partial_match() {
    let parsed = parse_hotkey_binding("Ctrl+K, C").expect("valid binding");
    let mut m = HotkeyMatcher::new(parsed.sequence, 500);
    assert!(!m.register_trigger(ctrl(), TriggerInput::Key(KeyToken::Char('k')), 1_000));
    assert!(!m.register_trigger(Modifiers::default(), TriggerInput::Key(KeyToken::Char('c')), 1_501));
    assert!(!m.register_trigger(ctrl(), TriggerInput::Key(KeyToken::Char('k')), 2_000));
    assert!(m.register_trigger(Modifiers::default(), TriggerInput::Key(KeyToken::Char('c')), 2_500));
}

#[test]
fn matcher_timeout_is_at_least_100_ms() {
    let parsed = parse_hotkey_binding("A, B").expect("valid binding");
    let mut m = HotkeyMatcher::new(parsed.sequence, 0);
    assert!(!m.register_trigger(Modifiers::default(), TriggerInput::Key(KeyToken::Char('a')), 0));
    assert!(m.register_trigger(Modifiers::default(), TriggerInput::Key(KeyToken::Char('b')), 100));
}

#[test]
fn matcher_restarts_on_first_step_and_resets_on_other_input() {
    let parsed = parse_hotkey_binding("A, B").expect("valid binding");
    let mut m = HotkeyMatcher::new(parsed.sequence, 1000);
    let a = TriggerInput::Key(KeyToken::Char('a'));
    let b = TriggerInput::Key(KeyToken::Char('b'));
    let z = TriggerInput::Key(KeyToken::Char('z'));
    assert!(!m.register_trigger(Modifiers::default(), a, 0));
    assert!(!m.register_trigger(Modifiers::default(), a, 10));
    assert!(m.register_trigger(Modifiers::default(), b, 20));
    assert!(!m.register_trigger(Modifiers::default(), a, 30));
    assert!(!m.register_trigger(Modifiers::default(), z, 40));
    assert!(!m.register_trigger(Modifiers::default(), b, 50));
}

#[test]
fn matcher_with_empty_sequence_never_fires() {
    let mut m = HotkeyMatcher::new(Vec::new(), 1000);
    assert!(!m.register_trigger(Modifiers::default(), TriggerInput::Key(KeyToken::Space), 0));
}

#[test]
fn matcher_single_step_fires_each_time() {
    let parsed = parse_hotkey_binding("Ctrl+`").expect("valid binding");
    let mut m = HotkeyMatcher::new(parsed.sequence, 1000);
    assert!(m.register_trigger(ctrl(), TriggerInput::Key(KeyToken::Backquote), 0));
    assert!(m.register_trigger(ctrl(), TriggerInput::Key(KeyToken::Backquote), 1));
    let c = m.clone();
    assert_eq!(c.sequence().len(), 1);
}

#[test]
fn toggle_key_fires_once_per_press() {
    let mut held = false;
    assert_eq!(on_toggle_key(&mut held, ToggleKeyEvent::Pressed, true, false), ToggleAction::StartRecording);
    assert_eq!(on_toggle_key(&mut held, ToggleKeyEvent::Pressed, true, true), ToggleAction::Nothing);
    assert_eq!(on_toggle_key(&mut held, ToggleKeyEvent::Released, true, true), ToggleAction::Nothing);
    assert_eq!(on_toggle_key(&mut held, ToggleKeyEvent::Pressed, true, true), ToggleAction::StopRecording);
    assert_eq!(on_toggle_key(&mut held, ToggleKeyEvent::Released, true, false), ToggleAction::Nothing);
    assert_eq!(on_toggle_key(&mut held, ToggleKeyEvent::Pressed, false, false), ToggleAction::Nothing);
}

#[test]
fn letter_case_and_spaces_beside_separators_do_not_matter() {
    let plain = parse_hotkey_binding("ctrl+k,mouse4").expect("valid binding");
    for variant in ["CTRL+K,MOUSE4", "Ctrl + k ,  Mouse4", "cTrL+K , mOuSe4 "] {
        let other = parse_hotkey_binding(variant).expect("valid binding");
        assert_eq!(other.normalized, plain.normalized);
        assert_eq!(other.sequence, plain.sequence);
    }
    assert_eq!(
        parse_hotkey_binding("Ctrl + + K").unwrap_err(),
        parse_hotkey_binding("Ctrl++K").unwrap_err()
    );
    assert!(parse_hotkey_binding("CTRL+HELLO").is_err());
    assert!(parse_hotkey_binding("ctrl+hello").is_err());
}
