use regxorder::hotkey::{HotkeyBinding, HotkeyKey, HotkeyModifier, HotkeyParseError};

#[test]
fn hotkey_hotkey_bindings_parse_case_insensitive_chords() {
    let hotkey = "ctrl+shift+f9"
        .parse::<HotkeyBinding>()
        .expect("hotkey bindings should parse");

    assert_eq!(hotkey.to_string(), "Ctrl+Shift+F9");
}

#[test]
fn hotkey_hotkey_bindings_accept_escape_aliases() {
    let hotkey = "control+alt+esc"
        .parse::<HotkeyBinding>()
        .expect("hotkey bindings should parse escape aliases");

    assert_eq!(hotkey.to_string(), "Ctrl+Alt+Escape");
}

#[test]
fn hotkey_hotkey_bindings_require_a_modifier() {
    let error = "f9"
        .parse::<HotkeyBinding>()
        .expect_err("hotkey bindings should reject missing modifiers");

    assert_eq!(error, HotkeyParseError::MissingModifier);
}

#[test]
fn hotkey_hotkey_bindings_reject_duplicate_modifiers() {
    let error = "ctrl+ctrl+f9"
        .parse::<HotkeyBinding>()
        .expect_err("hotkey bindings should reject duplicate modifiers");

    assert_eq!(
        error,
        HotkeyParseError::DuplicateModifier {
            token: String::from("ctrl")
        }
    );
}

#[test]
fn hotkey_bindings_canonicalize_modifier_order() {
    let hotkey = HotkeyBinding::new(
        vec![HotkeyModifier::Shift, HotkeyModifier::Control],
        HotkeyKey::F9,
    )
    .expect("hotkey bindings should be constructible");

    assert_eq!(hotkey.to_string(), "Ctrl+Shift+F9");
}

#[test]
fn binding_text_parses_back_to_the_same_binding() {
    for text in ["ctrl+shift+f9", "win+alt+escape", "shift+f12", "alt+ctrl+win+shift+f1"] {
        let binding = text.parse::<HotkeyBinding>().expect("chord should parse");
        let again = binding
            .to_string()
            .parse::<HotkeyBinding>()
            .expect("rendered chord should parse");
        assert!(binding.same_as(&again));
        assert_eq!(again.to_string(), binding.to_string());
    }
}

#[test]
fn modifier_order_does_not_change_the_binding() {
    let first = "shift+ctrl+f9".parse::<HotkeyBinding>().expect("chord should parse");
    let second = "ctrl+shift+f9".parse::<HotkeyBinding>().expect("chord should parse");
    assert!(first.same_as(&second));
    assert_eq!(first.modifiers(), &[HotkeyModifier::Control, HotkeyModifier::Shift]);
    assert_eq!(first.key(), HotkeyKey::F9);
}

#[test]
fn chord_errors_name_the_first_problem() {
    assert_eq!(
        "ctrl++f9".parse::<HotkeyBinding>().unwrap_err(),
        HotkeyParseError::EmptySegment
    );
    assert_eq!(
        "ctrl+f9+f10".parse::<HotkeyBinding>().unwrap_err(),
        HotkeyParseError::MultipleBaseKeys
    );
    assert_eq!(
        "ctrl+super+f9".parse::<HotkeyBinding>().unwrap_err(),
        HotkeyParseError::UnsupportedToken {
            token: String::from("super")
        }
    );
    assert_eq!(
        "ctrl+shift".parse::<HotkeyBinding>().unwrap_err(),
        HotkeyParseError::MissingBaseKey
    );
    assert_eq!(
        HotkeyBinding::new(Vec::new(), HotkeyKey::F1).unwrap_err(),
        HotkeyParseError::MissingModifier
    );
    assert_eq!(
        HotkeyBinding::new(vec![HotkeyModifier::Alt, HotkeyModifier::Alt], HotkeyKey::F1).unwrap_err(),
        HotkeyParseError::DuplicateModifier {
            token: String::from("alt")
        }
    );
}

#[test]
fn chord_tokens_are_trimmed_and_case_insensitive() {
    let binding = "  Windows +  SHIFT+Esc ".parse::<HotkeyBinding>().expect("chord should parse");
    assert_eq!(binding.to_string(), "Shift+Win+Escape");
    assert_eq!(HotkeyModifier::Win.display_name(), "Win");
    assert_eq!(HotkeyKey::F11.display_name(), "F11");
}

#[test]
fn hotkey_lowercase_text_parses_back_to_the_same_binding() {
    let binding = HotkeyBinding::new(
        vec![HotkeyModifier::Shift, HotkeyModifier::Control, HotkeyModifier::Win],
        HotkeyKey::F11,
    )
    .expect("valid binding");
    let text = binding.to_string();
    assert_eq!(text, "Ctrl+Shift+Win+F11");
    let lower = text.to_ascii_lowercase();
    assert_eq!(lower, "ctrl+shift+win+f11");
    let parsed = lower.parse::<HotkeyBinding>().expect("lower-case text parses");
    assert_eq!(parsed, binding);
    assert_eq!(text.parse::<HotkeyBinding>().expect("text parses"), binding);
}

#[test]
fn hotkey_lowercase_of_a_mixed_case_chord_parses_alike() {
    let mixed = " CoNtRoL + aLt +eSc ";
    let original = mixed.parse::<HotkeyBinding>().expect("mixed case parses");
    let lowered = mixed.to_ascii_lowercase().parse::<HotkeyBinding>().expect("lower parses");
    assert_eq!(original, lowered);
    assert_eq!(lowered.to_string(), "Ctrl+Alt+Escape");
}

#[test]
fn hotkey_key_names_are_distinct_and_parse_back() {
    let keys = [
        HotkeyKey::Escape,
        HotkeyKey::F1,
        HotkeyKey::F2,
        HotkeyKey::F3,
        HotkeyKey::F4,
        HotkeyKey::F5,
        HotkeyKey::F6,
        HotkeyKey::F7,
        HotkeyKey::F8,
        HotkeyKey::F9,
        HotkeyKey::F10,
        HotkeyKey::F11,
        HotkeyKey::F12,
    ];
    let expected = [
        "Escape", "F1", "F2", "F3", "F4", "F5", "F6", "F7", "F8", "F9", "F10", "F11", "F12",
    ];
    for (key, name) in keys.iter().zip(expected.iter()) {
        assert_eq!(key.display_name(), *name);
        assert_eq!(key.to_string(), *name);
        let chord = format!("Alt+{}", key.to_string());
        let parsed = chord.parse::<HotkeyBinding>().expect("key name parses");
        assert_eq!(parsed.key(), *key);
    }
    for (i, first) in expected.iter().enumerate() {
        for second in expected.iter().skip(i + 1) {
            assert_ne!(first, second);
        }
    }
}

#[test]
fn hotkey_modifier_names_write_their_display_form() {
    assert_eq!(HotkeyModifier::Control.to_string(), "Ctrl");
    assert_eq!(HotkeyModifier::Alt.to_string(), "Alt");
    assert_eq!(HotkeyModifier::Shift.to_string(), "Shift");
    assert_eq!(HotkeyModifier::Win.to_string(), "Win");
    let parsed = "win+shift+f1".parse::<HotkeyBinding>().expect("parses");
    assert_eq!(parsed.modifiers(), &[HotkeyModifier::Shift, HotkeyModifier::Win]);
}
