use std::sync::atomic::{AtomicBool, Ordering};

use regxorder::backend::WindowsBackendError;
use regxorder::controller::{ControlAction, ControlBindings, ControlController};
use regxorder::diagnostics::DiagnosticStatus;
use regxorder::elevation::{
    build_windows_command_line, ensure_current_process_is_elevated, ProcessElevationStatus,
};
use regxorder::environment::build_environment_report;
use regxorder::global_hotkeys::{
    binding_virtual_keys, release_wait_step, validate_hotkey_registrations, wait_for_hotkey_binding,
    HotkeyActivation, HotkeyModifiers, HotkeyRegistration, HotkeyWaitOutcome, HotkeyWaitStep,
    MOD_ALT, MOD_CONTROL, MOD_SHIFT,
};
use regxorder::hotkey::HotkeyBinding;

fn wide(text: &str) -> Vec<u16> {
    text.encode_utf16().collect()
}

#[test]
fn control_bindings_require_at_least_one_start_hotkey() {
    let error = ControlBindings::new(None, None)
        .expect_err("control bindings should require at least one action");

    assert!(matches!(error, WindowsBackendError::NoControlActionHotkeys));
}

#[test]
fn control_bindings_reject_duplicate_start_hotkeys() {
    let record_binding = "ctrl+shift+f11"
        .parse::<HotkeyBinding>()
        .expect("hotkey bindings should parse");
    let play_binding = "ctrl+shift+f11"
        .parse::<HotkeyBinding>()
        .expect("hotkey bindings should parse");
    let error = ControlBindings::new(Some(record_binding), Some(play_binding))
        .expect_err("duplicate action hotkeys should be rejected");

    assert!(matches!(
        error,
        WindowsBackendError::DuplicateControlActionHotkey { .. }
    ));
}

#[test]
fn control_bindings_register_each_bound_action() {
    let record = "ctrl+shift+f11".parse::<HotkeyBinding>().expect("parses");
    let play = "ctrl+shift+f12".parse::<HotkeyBinding>().expect("parses");
    let bindings = ControlBindings::new(Some(record), Some(play)).expect("distinct hotkeys");
    let registrations = bindings.registrations();
    assert_eq!(registrations.len(), 2);
    assert_eq!(registrations[0].identifier(), 1);
    assert_eq!(registrations[0].virtual_key_code(), 0x7A);
    assert_eq!(registrations[1].identifier(), 2);
    assert_eq!(registrations[1].virtual_key_code(), 0x7B);
    let controller = ControlController;
    assert!(matches!(
        controller.action_for_activation(&bindings, HotkeyActivation::from_identifier(2)),
        Ok(ControlAction::Play)
    ));
    assert!(matches!(
        controller.action_for_activation(&bindings, HotkeyActivation::from_identifier(9)),
        Err(WindowsBackendError::Internal("unknown control action hotkey"))
    ));
    assert_eq!(
        controller.action_after_release(ControlAction::Record, HotkeyWaitOutcome::Cancelled),
        None
    );

    let only_play = ControlBindings::new(None, Some("alt+f5".parse::<HotkeyBinding>().expect("parses")))
        .expect("one hotkey is enough");
    assert_eq!(only_play.registrations().len(), 1);
    assert!(matches!(
        controller.action_for_activation(&only_play, HotkeyActivation::from_identifier(1)),
        Err(WindowsBackendError::Internal("missing binding for activated control action"))
    ));
}

#[test]
fn hotkey_modifiers_combine_expected_windows_flags() {
    let modifiers = HotkeyModifiers::control() | HotkeyModifiers::shift() | HotkeyModifiers::alt();

    assert_eq!(modifiers.bits(), MOD_CONTROL | MOD_SHIFT | MOD_ALT);
}

#[test]
fn hotkey_registration_maps_shared_bindings_into_windows_values() {
    let binding = "ctrl+shift+f9"
        .parse::<HotkeyBinding>()
        .expect("hotkey bindings should parse");
    let registration = HotkeyRegistration::from_binding(7, &binding);

    assert_eq!(registration.identifier(), 7);
    assert_eq!(
        registration.modifiers(),
        HotkeyModifiers::control() | HotkeyModifiers::shift()
    );
    assert_eq!(registration.virtual_key_code(), 0x78);
    assert!(registration.suppresses_auto_repeat());
    assert!(!registration.with_auto_repeat_enabled().suppresses_auto_repeat());
    assert_eq!(
        registration.description(),
        "modifiers=0x6, vk=0x78, suppress_auto_repeat=true"
    );
}

#[test]
fn hotkey_registration_lists_need_distinct_identifiers() {
    assert!(matches!(
        validate_hotkey_registrations(&[]),
        Err(WindowsBackendError::NoHotkeyRegistrations)
    ));
    let registrations = [
        HotkeyRegistration::new(1, HotkeyModifiers::control(), 0x78),
        HotkeyRegistration::new(2, HotkeyModifiers::shift(), 0x79),
        HotkeyRegistration::new(1, HotkeyModifiers::alt(), 0x7A),
    ];
    assert!(matches!(
        validate_hotkey_registrations(&registrations),
        Err(WindowsBackendError::DuplicateHotkeyIdentifier { identifier: 1 })
    ));
    assert!(validate_hotkey_registrations(&registrations[..2]).is_ok());
}

#[test]
fn release_barrier_waits_for_every_key_of_the_chord() {
    let binding = "ctrl+win+f9".parse::<HotkeyBinding>().expect("parses");
    assert_eq!(binding_virtual_keys(&binding), vec![0x11, 0x5B, 0x5C, 0x78]);
    assert_eq!(release_wait_step(false, &[false, true, false, false]), None);
    assert_eq!(
        release_wait_step(false, &[false, false, false, false]),
        Some(HotkeyWaitOutcome::Activated)
    );
    assert_eq!(
        release_wait_step(true, &[true, true, true, true]),
        Some(HotkeyWaitOutcome::Cancelled)
    );
}

#[test]
fn environment_doctor_marks_failed_hotkey_probes_as_failures() {
    let hotkey_probe = "ctrl+alt+shift+f12"
        .parse::<HotkeyBinding>()
        .expect("doctor probe hotkey should parse");

    let report = build_environment_report(
        String::from("windows"),
        String::from("x86_64"),
        hotkey_probe,
        Err(String::from("an internal backend invariant was violated: probe failed")),
        Ok(ProcessElevationStatus::Elevated),
    );

    assert_eq!(report.summary.fail_count, 1);
    assert_eq!(report.checks[3].name, "hotkey_probe");
    assert_eq!(
        report.checks[3].summary,
        "temporary RegisterHotKey probe failed for Ctrl+Alt+Shift+F12: an internal backend invariant was violated: probe failed"
    );
}

#[test]
fn environment_doctor_warns_when_the_process_is_not_elevated() {
    let hotkey_probe = "ctrl+alt+shift+f12"
        .parse::<HotkeyBinding>()
        .expect("doctor probe hotkey should parse");

    let report = build_environment_report(
        String::from("windows"),
        String::from("x86_64"),
        hotkey_probe,
        Ok(()),
        Ok(ProcessElevationStatus::NotElevated),
    );

    assert_eq!(report.summary.warn_count, 1);
    assert_eq!(report.checks[4].name, "process_elevation");
    assert_eq!(report.summary.overall_status(), DiagnosticStatus::Warn);
    assert_eq!(report.recording_backends, vec!["raw_input", "low_level_hooks"]);
    assert_eq!(report.playback_backend, "send_input");
    assert_eq!(report.hotkey_backend, "register_hotkey");
    assert_eq!(report.checks.len(), 5);
}

#[test]
fn elevation_requirement_follows_the_queried_status() {
    assert!(ensure_current_process_is_elevated("playback", Ok(ProcessElevationStatus::Elevated)).is_ok());
    assert!(matches!(
        ensure_current_process_is_elevated("playback", Ok(ProcessElevationStatus::NotElevated)),
        Err(WindowsBackendError::ElevationRequired { operation: "playback" })
    ));
    assert!(matches!(
        ensure_current_process_is_elevated("playback", Err(WindowsBackendError::ThreadPanic)),
        Err(WindowsBackendError::ThreadPanic)
    ));
}

#[test]
fn windows_command_line_quotes_arguments_with_spaces() {
    let command_line = build_windows_command_line(&[
        wide("play"),
        wide("--input"),
        wide(r"C:\Program Files\regxorder\demo file.json"),
    ]);

    assert_eq!(
        command_line,
        wide(r#"play --input "C:\Program Files\regxorder\demo file.json""#)
    );
}

#[test]
fn windows_command_line_escapes_embedded_quotes() {
    let command_line = build_windows_command_line(&[
        wide("play"),
        wide("--label"),
        wide(r#"quoted "demo" value"#),
    ]);

    assert_eq!(command_line, wide(r#"play --label "quoted \"demo\" value""#));
}

#[test]
fn windows_command_line_preserves_non_utf8_arguments() {
    let command_line = build_windows_command_line(&[vec![0x0061, 0x20AC], wide("sample")]);

    assert_eq!(
        command_line,
        vec![0x0061, 0x20AC, 32, 0x0073, 0x0061, 0x006D, 0x0070, 0x006C, 0x0065]
    );
}

#[test]
fn windows_command_line_doubles_backslashes_before_quotes() {
    let command_line = build_windows_command_line(&[wide(r"a\\b c\"), wide(""), wide(r#"x\"y"#)]);
    assert_eq!(command_line, wide(r#""a\\b c\\" "" "x\\\"y""#));
}

#[test]
fn hotkey_listener_rejects_empty_registration_lists() {
    let error = validate_hotkey_registrations(&[])
        .expect_err("empty hotkey lists should be rejected");

    assert!(matches!(error, WindowsBackendError::NoHotkeyRegistrations));
}

#[test]
fn hotkey_listener_rejects_duplicate_identifiers() {
    let registrations = [
        HotkeyRegistration::new(1, HotkeyModifiers::control(), 0x78),
        HotkeyRegistration::new(1, HotkeyModifiers::shift(), 0x79),
    ];

    let error = validate_hotkey_registrations(&registrations)
        .expect_err("duplicate hotkey identifiers should be rejected");

    assert!(matches!(
        error,
        WindowsBackendError::DuplicateHotkeyIdentifier { identifier: 1 }
    ));
}

/// Polls the chord's keys through the library's release step until it settles,
/// as the Windows listener does with the real key state.
fn wait_for_release_with(
    binding: &HotkeyBinding,
    stop_requested: &std::sync::atomic::AtomicBool,
    mut is_virtual_key_pressed: impl FnMut(i32) -> bool,
    mut wait: impl FnMut(),
) -> HotkeyWaitOutcome {
    let keys = binding_virtual_keys(binding);
    loop {
        let stop = stop_requested.load(std::sync::atomic::Ordering::SeqCst);
        let keys_down: Vec<bool> = if stop {
            Vec::new()
        } else {
            keys.iter().map(|key| is_virtual_key_pressed(*key)).collect()
        };
        if let Some(outcome) = release_wait_step(stop, &keys_down) {
            return outcome;
        }
        wait();
    }
}

#[test]
fn hotkey_release_barrier_waits_until_the_chord_is_released() {
    let stop_requested = std::sync::atomic::AtomicBool::new(false);
    let binding = "ctrl+f9"
        .parse::<HotkeyBinding>()
        .expect("hotkey bindings should parse");
    let release_phase = std::cell::Cell::new(0_u8);
    let wait_count = std::cell::Cell::new(0_u8);

    let outcome = wait_for_release_with(
        &binding,
        &stop_requested,
        |virtual_key_code| virtual_key_code == 0x11 && release_phase.get() == 0,
        || {
            wait_count.set(wait_count.get() + 1);
            release_phase.set(1);
        },
    );

    assert_eq!(outcome, HotkeyWaitOutcome::Activated);
    assert_eq!(wait_count.get(), 1);
}

#[test]
fn hotkey_release_barrier_cancels_when_shutdown_is_requested() {
    let stop_requested = std::sync::atomic::AtomicBool::new(true);
    let binding = "ctrl+f9"
        .parse::<HotkeyBinding>()
        .expect("hotkey bindings should parse");

    let outcome = wait_for_release_with(&binding, &stop_requested, |_| true, || {});

    assert_eq!(outcome, HotkeyWaitOutcome::Cancelled);
}

/// The Microsoft C runtime's splitting of the arguments after the program name.
fn split_like_the_c_runtime(line: &[u16]) -> Vec<Vec<u16>> {
    let mut arguments = Vec::new();
    let mut index = 0;
    loop {
        while index < line.len() && (line[index] == 32 || line[index] == 9) {
            index += 1;
        }
        if index >= line.len() || line[index] == 0 {
            return arguments;
        }
        let mut current = Vec::new();
        let mut in_quotes = false;
        loop {
            let mut slashes = 0;
            while index < line.len() && line[index] == 92 {
                index += 1;
                slashes += 1;
            }
            let mut copy = true;
            if index < line.len() && line[index] == 34 {
                if slashes % 2 == 0 {
                    if in_quotes && index + 1 < line.len() && line[index + 1] == 34 {
                        index += 1;
                    } else {
                        copy = false;
                        in_quotes = !in_quotes;
                    }
                }
                slashes /= 2;
            }
            for _ in 0..slashes {
                current.push(92);
            }
            if index >= line.len()
                || line[index] == 0
                || (!in_quotes && (line[index] == 32 || line[index] == 9))
            {
                break;
            }
            if copy {
                current.push(line[index]);
            }
            index += 1;
        }
        arguments.push(current);
    }
}

#[test]
fn windows_command_line_splits_back_into_its_arguments() {
    let cases: Vec<Vec<Vec<u16>>> = vec![
        Vec::new(),
        vec![wide("")],
        vec![wide(""), wide("")],
        vec![wide("play"), wide("--input"), wide(r"C:\Program Files\demo file.json")],
        vec![wide(r#"quoted "demo" value"#), wide(r"trailing\"), wide(r"a\\b c\")],
        vec![wide(r#"x\"y"#), wide(r#"""#), wide(r#""""#), wide(r"\\\\")],
        vec![wide("tab\there"), wide("line\nfeed"), wide(" lead"), wide("trail ")],
        vec![vec![0xD800, 0x0061], vec![0x20AC, 0xDFFF, 34, 92]],
    ];
    for arguments in cases {
        let command_line = build_windows_command_line(&arguments);
        assert_eq!(split_like_the_c_runtime(&command_line), arguments);
    }
}

#[test]
fn wait_for_hotkey_binding_cancels_when_shutdown_is_requested() {
    let stop_requested = AtomicBool::new(true);
    let binding = "ctrl+shift+f9"
        .parse::<HotkeyBinding>()
        .expect("hotkey bindings should parse");

    let outcome = match wait_for_hotkey_binding(&binding, 1, stop_requested.load(Ordering::SeqCst)) {
        HotkeyWaitStep::Finished(outcome) => outcome,
        HotkeyWaitStep::AwaitActivation(_) => panic!("hotkey waiting should complete"),
    };

    assert_eq!(outcome, HotkeyWaitOutcome::Cancelled);
}

#[test]
fn wait_for_hotkey_binding_waits_on_the_binding_registration_otherwise() {
    let binding = "ctrl+shift+f9"
        .parse::<HotkeyBinding>()
        .expect("hotkey bindings should parse");

    let step = wait_for_hotkey_binding(&binding, 7, false);

    assert_eq!(
        step,
        HotkeyWaitStep::AwaitActivation(HotkeyRegistration::from_binding(7, &binding))
    );
    match step {
        HotkeyWaitStep::AwaitActivation(registration) => {
            assert_eq!(registration.identifier(), 7);
            assert_eq!(registration.modifiers().bits(), MOD_CONTROL | MOD_SHIFT);
            assert_eq!(registration.virtual_key_code(), 0x78);
            assert!(registration.suppresses_auto_repeat());
        }
        HotkeyWaitStep::Finished(_) => panic!("a wait without a stop request should register"),
    }
}
