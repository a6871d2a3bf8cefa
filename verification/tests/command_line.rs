use regxorder::cli::{
    build_hotkey_modifiers, format_hotkey_label, format_stop_controls, keeps_requested_input_path,
    keeps_requested_output_path, sample_recording, HotkeyBindingArgument, HotkeyKeyArgument, HotkeyModifierArgument,
};
use regxorder::global_hotkeys::{HotkeyModifiers, MOD_ALT, MOD_CONTROL, MOD_NOREPEAT, MOD_SHIFT};

#[test]
fn built_in_sample_recording_is_valid_and_ordered() {
    let recording = sample_recording(Some("CLI sample"));

    assert_eq!(recording.event_count(), 2);
    assert_eq!(recording.events()[0].sequence, 0);
    assert_eq!(recording.events()[1].sequence, 1);
    assert_eq!(recording.duration().as_micros(), 40_000);
    assert_eq!(recording.metadata().title.as_deref(), Some("CLI sample"));
}

#[test]
fn hotkey_modifier_lists_build_windows_modifier_masks() {
    let modifiers = build_hotkey_modifiers(&[
        HotkeyModifierArgument::Control,
        HotkeyModifierArgument::Shift,
    ])
    .expect("hotkey modifiers should build");

    assert_eq!(modifiers, HotkeyModifiers::control() | HotkeyModifiers::shift());
    assert!(build_hotkey_modifiers(&[]).is_none());
}

#[test]
fn hotkey_labels_render_modifier_and_key_names() {
    let label = format_hotkey_label(
        &[HotkeyModifierArgument::Control, HotkeyModifierArgument::Alt],
        HotkeyKeyArgument::F9,
    );

    assert_eq!(label, "Ctrl+Alt+F9");
}

#[test]
fn app_hotkey_bindings_parse_case_insensitive_chords() {
    let hotkey = "ctrl+shift+f9"
        .parse::<HotkeyBindingArgument>()
        .expect("hotkey bindings should parse");

    assert_eq!(hotkey.to_string(), "Ctrl+Shift+F9");
}

#[test]
fn app_hotkey_bindings_accept_escape_aliases() {
    let hotkey = "control+alt+esc"
        .parse::<HotkeyBindingArgument>()
        .expect("hotkey bindings should parse escape aliases");

    assert_eq!(hotkey.to_string(), "Ctrl+Alt+Escape");
}

#[test]
fn app_hotkey_bindings_require_a_modifier() {
    let error = "f9"
        .parse::<HotkeyBindingArgument>()
        .expect_err("hotkey bindings should reject missing modifiers");

    assert_eq!(
        error,
        "hotkeys require at least one modifier such as ctrl, alt, shift, or win"
    );
}

#[test]
fn app_hotkey_bindings_reject_duplicate_modifiers() {
    let error = "ctrl+ctrl+f9"
        .parse::<HotkeyBindingArgument>()
        .expect_err("hotkey bindings should reject duplicate modifiers");

    assert_eq!(error, "hotkey modifier `ctrl` was provided more than once");
}

#[test]
fn stop_controls_include_optional_hotkey_labels() {
    let stop_hotkey = "ctrl+shift+f10"
        .parse::<HotkeyBindingArgument>()
        .expect("stop hotkeys should parse");

    assert_eq!(format_stop_controls(Some(&stop_hotkey)), "Ctrl+Shift+F10 or Ctrl+C");
    assert_eq!(format_stop_controls(None), "Ctrl+C");
}

#[test]
fn command_line_hotkeys_keep_the_given_modifier_order() {
    let hotkey = "shift+ctrl+f9".parse::<HotkeyBindingArgument>().expect("parses");
    assert_eq!(hotkey.to_string(), "Shift+Ctrl+F9");
    let registration = hotkey.registration(4);
    assert_eq!(registration.identifier(), 4);
    assert_eq!(registration.modifiers().bits(), MOD_SHIFT | MOD_CONTROL);
    assert_eq!(registration.virtual_key_code(), 0x78);
    assert_eq!(registration.registration_flags(), MOD_SHIFT | MOD_CONTROL | MOD_NOREPEAT);
}

#[test]
fn command_line_hotkey_errors_follow_the_documented_order() {
    assert_eq!(
        "ctrl+".parse::<HotkeyBindingArgument>().unwrap_err(),
        "hotkeys cannot contain empty segments"
    );
    assert_eq!(
        "alt+f1+f2".parse::<HotkeyBindingArgument>().unwrap_err(),
        "hotkeys can only contain one base key such as escape or f1-f12"
    );
    assert_eq!(
        "alt+tab".parse::<HotkeyBindingArgument>().unwrap_err(),
        "unsupported hotkey token `tab`; use modifiers like ctrl/alt/shift/win and keys like escape or f1-f12"
    );
    assert_eq!(
        "alt".parse::<HotkeyBindingArgument>().unwrap_err(),
        "hotkeys require a base key such as escape or f1-f12"
    );
    assert_eq!(
        "f1".parse::<HotkeyBindingArgument>().unwrap_err(),
        "hotkeys require at least one modifier such as ctrl, alt, shift, or win"
    );
    assert_eq!(HotkeyModifierArgument::Alt.into_hotkey_modifier().bits(), MOD_ALT);
}

#[test]
fn session_paths_are_kept_when_absolute_or_nested() {
    assert!(!keeps_requested_output_path(false, 1));
    assert!(keeps_requested_output_path(true, 1));
    assert!(keeps_requested_output_path(false, 2));
    assert!(!keeps_requested_input_path(false, false, 1));
    assert!(keeps_requested_input_path(true, false, 1));
    assert!(keeps_requested_input_path(false, true, 1));
    assert!(keeps_requested_input_path(false, false, 3));
}
