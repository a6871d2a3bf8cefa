use regxorder::diagnostics::{DiagnosticCheck, EnvironmentDoctorReport};
use regxorder::editor::EditingSession;
use regxorder::event::{
    AbsoluteScreenPoint, DisplayMetadata, EventOffset, InputAction, InputEvent, KeyDescriptor,
    MouseButton, NormalizedCoordinate, NormalizedScreenPoint, PointerPosition, ScanCode,
    SchemaVersion, ScreenSize, ScrollAxis,
};
use regxorder::hotkey::{HotkeyBinding, HotkeyKey};
use regxorder::presentation::{
    build_diagnostic_checks_text, build_event_filter_counts, build_issue_lines,
    clamp_playback_loop_input, compact_process_elevation_status, format_elapsed_clock,
    format_event_action_label, format_event_table_parameter_label, format_event_table_type_label,
    format_playback_loop_input, hotkey_key_from_index, hotkey_key_index,
    normalize_playback_loop_count, parse_i32, visible_event_source_indices, EventListFilter,
};
use regxorder::recording::{Recording, RecordingMetadata};

fn metadata(title: &str) -> RecordingMetadata {
    RecordingMetadata {
        schema_version: SchemaVersion::new(1),
        title: Some(String::from(title)),
        display: DisplayMetadata {
            virtual_origin: AbsoluteScreenPoint { x: 0, y: 0 },
            virtual_size: ScreenSize {
                width: 1920,
                height: 1080,
            },
            monitors: Vec::new(),
        },
    }
}

fn key_a() -> KeyDescriptor {
    KeyDescriptor {
        scan_code: ScanCode::new(30),
        logical_name: Some(String::from("A")),
        extended: false,
    }
}

fn event(sequence: u64, micros: u64, action: InputAction) -> InputEvent {
    InputEvent {
        sequence,
        elapsed_time: EventOffset::from_micros(micros),
        action,
    }
}

fn pointer(x: i32, y: i32) -> InputAction {
    let nx = NormalizedCoordinate::from_bits((x as f64 / 1919.0).max(0.0).to_bits(), "x").expect("x");
    let ny = NormalizedCoordinate::from_bits((y as f64 / 1079.0).max(0.0).to_bits(), "y").expect("y");
    InputAction::PointerMoved {
        position: PointerPosition {
            absolute: AbsoluteScreenPoint { x, y },
            normalized: NormalizedScreenPoint { x: nx, y: ny },
        },
    }
}

fn alpha_recording() -> Recording {
    Recording::new(
        metadata("Alpha sample"),
        vec![
            event(0, 0, InputAction::KeyPressed { key: key_a() }),
            event(1, 40_000, InputAction::KeyReleased { key: key_a() }),
        ],
    )
    .expect("alpha sample is valid")
}

fn mixed_recording() -> Recording {
    Recording::new(
        metadata("Mixed sample"),
        vec![
            event(0, 0, InputAction::KeyPressed { key: key_a() }),
            event(1, 10_000, pointer(100, 200)),
            event(
                2,
                20_000,
                InputAction::MouseButtonPressed {
                    button: MouseButton::Left,
                },
            ),
            event(3, 30_000, pointer(110, 210)),
            event(
                4,
                40_000,
                InputAction::MouseButtonReleased {
                    button: MouseButton::Left,
                },
            ),
        ],
    )
    .expect("mixed sample is valid")
}

fn session(recording: &Recording) -> EditingSession {
    EditingSession::from_recording(String::from("sessions/sample.json"), recording)
}

#[test]
fn editing_session_deletion_renumbers_the_remaining_events() {
    let mut editing_session = session(&alpha_recording());
    assert!(!editing_session.is_dirty());

    editing_session
        .delete_selected_event()
        .expect("selected event should delete cleanly");

    assert!(editing_session.is_dirty());
    assert_eq!(editing_session.working_recording().event_count(), 1);
    assert_eq!(editing_session.working_recording().events()[0].sequence, 0);
    assert_eq!(editing_session.original_recording().event_count(), 2);
}

#[test]
fn editing_session_duplicate_selects_the_copy() {
    let mut editing_session = session(&alpha_recording());

    editing_session
        .duplicate_selected_event()
        .expect("selected event should duplicate cleanly");

    assert!(editing_session.is_dirty());
    assert_eq!(editing_session.working_recording().event_count(), 3);
    assert_eq!(editing_session.selected_event_index(), Some(1));
    assert_eq!(
        editing_session.working_recording().events()[1].action,
        editing_session.working_recording().events()[0].action
    );
    assert_eq!(editing_session.working_recording().events()[2].sequence, 2);
}

#[test]
fn editing_session_toggle_switches_the_key_state() {
    let mut editing_session = session(&alpha_recording());

    editing_session
        .toggle_selected_event_state()
        .expect("selected key event should toggle cleanly");

    assert!(matches!(
        editing_session.working_recording().events()[0].action,
        InputAction::KeyReleased { .. }
    ));
}

#[test]
fn toggling_a_pointer_move_is_refused() {
    let mut editing_session = session(&mixed_recording());
    editing_session.select_event(1);
    assert_eq!(
        editing_session.toggle_selected_event_state().unwrap_err(),
        "Only key and mouse button events can toggle between pressed and released states."
    );
    assert!(!editing_session.is_dirty());
}

#[test]
fn editing_session_nudge_clamps_to_the_neighbours() {
    let mut editing_session = session(&alpha_recording());
    editing_session.select_event(1);

    editing_session
        .nudge_selected_event(-100_000)
        .expect("selected event timing should update");

    assert_eq!(
        editing_session.working_recording().events()[1].elapsed_time.as_micros(),
        editing_session.working_recording().events()[0].elapsed_time.as_micros()
    );

    editing_session.nudge_selected_event(25_000).expect("timing should update");
    assert_eq!(editing_session.working_recording().events()[1].elapsed_time.as_micros(), 25_000);
}

#[test]
fn reverting_restores_the_loaded_recording() {
    let mut editing_session = session(&mixed_recording());
    editing_session.select_event(4);
    editing_session.delete_selected_event().expect("deletes");
    assert_eq!(editing_session.selected_event_index(), Some(3));
    assert!(editing_session.is_dirty());
    editing_session.revert();
    assert!(!editing_session.is_dirty());
    assert_eq!(editing_session.working_recording(), &mixed_recording());
    assert_eq!(editing_session.selected_event_index(), Some(3));
}

#[test]
fn edits_without_a_selection_are_refused() {
    let empty = Recording::new(metadata("Empty"), Vec::new()).expect("valid");
    let mut editing_session = session(&empty);
    assert_eq!(editing_session.selected_event_index(), None);
    assert_eq!(
        editing_session.delete_selected_event().unwrap_err(),
        "Select an event before deleting it."
    );
    assert_eq!(
        editing_session.duplicate_selected_event().unwrap_err(),
        "Select an event before duplicating it."
    );
    assert_eq!(
        editing_session.toggle_selected_event_state().unwrap_err(),
        "Select an event before changing it."
    );
    assert_eq!(
        editing_session.nudge_selected_event(5).unwrap_err(),
        "Select an event before changing its timing."
    );
    assert_eq!(
        editing_session.delete_event_at(0).unwrap_err(),
        "Select an event before deleting it."
    );
}

#[test]
fn visible_source_indices_skip_pointer_moves() {
    let editing_session = session(&mixed_recording());
    let visible = visible_event_source_indices(Some(&editing_session), EventListFilter::default());

    assert_eq!(visible, vec![0, 2, 4]);
    let all = EventListFilter {
        show_pointer_move_events: true,
        ..EventListFilter::default()
    };
    assert_eq!(visible_event_source_indices(Some(&editing_session), all).len(), 5);
    assert!(visible_event_source_indices(None, all).is_empty());
}

#[test]
fn filter_counts_group_each_event_kind() {
    let editing_session = session(&mixed_recording());
    let counts = build_event_filter_counts(Some(&editing_session));

    assert_eq!(counts.key_event_count, 1);
    assert_eq!(counts.mouse_button_event_count, 2);
    assert_eq!(counts.mouse_wheel_event_count, 0);
    assert_eq!(counts.pointer_move_event_count, 2);
}

#[test]
fn event_labels_describe_each_action() {
    let wheel = InputAction::MouseWheelScrolled {
        axis: ScrollAxis::Horizontal,
        delta: -120,
    };
    assert_eq!(format_event_table_type_label(&wheel), "Wheel Down");
    assert_eq!(format_event_action_label(&wheel), "Horizontal Wheel -120");
    assert_eq!(format_event_table_parameter_label(&wheel), "Horizontal down (-120)");
    assert_eq!(format_event_table_parameter_label(&pointer(-5, 7)), "(-5, 7)");
    assert_eq!(
        format_event_table_parameter_label(&InputAction::KeyPressed { key: key_a() }),
        "A · scan 30"
    );
    let blank_extended = KeyDescriptor {
        scan_code: ScanCode::new(75),
        logical_name: Some(String::from("  ")),
        extended: true,
    };
    assert_eq!(
        format_event_table_parameter_label(&InputAction::KeyReleased { key: blank_extended }),
        "scan 75 · ext"
    );
    assert_eq!(
        format_event_action_label(&InputAction::MouseButtonPressed {
            button: MouseButton::X2
        }),
        "X2 Down"
    );
}

#[test]
fn elapsed_clock_pads_each_field() {
    assert_eq!(format_elapsed_clock(0), "00:00:00.000");
    assert_eq!(format_elapsed_clock(62_345_999), "00:01:02.345");
    assert_eq!(format_elapsed_clock(360_000_000_000), "100:00:00.000");
}

#[test]
fn loop_input_text_reads_clamped_counts() {
    assert_eq!(clamp_playback_loop_input("0"), Some(1));
    assert_eq!(clamp_playback_loop_input(" 12000 "), Some(9_999));
    assert_eq!(clamp_playback_loop_input("3"), Some(3));
    assert_eq!(clamp_playback_loop_input("-7"), Some(1));
    assert_eq!(clamp_playback_loop_input("+42"), Some(42));
    assert_eq!(clamp_playback_loop_input(""), None);
    assert_eq!(clamp_playback_loop_input("   "), None);
    assert_eq!(clamp_playback_loop_input("2x"), None);
    assert_eq!(clamp_playback_loop_input("99999999999"), None);
    assert_eq!(format_playback_loop_input(9_999), "9999");
    assert_eq!(normalize_playback_loop_count(i32::MAX), 9_999);
}

#[test]
fn integers_parse_as_the_standard_library_reads_them() {
    for text in ["0", "-0", "+17", "2147483647", "-2147483648", "2147483648", "-2147483649", "-", "+", "", "1_0", "007"] {
        let chars: Vec<char> = text.chars().collect();
        assert_eq!(parse_i32(&chars), text.parse::<i32>().ok(), "parsing {text:?}");
    }
}

fn environment_report(elevation: Option<DiagnosticCheck>) -> EnvironmentDoctorReport {
    let mut checks = vec![DiagnosticCheck::pass(
        String::from("recording_backends"),
        String::from("compiled"),
    )];
    if let Some(check) = elevation {
        checks.push(check);
    }
    EnvironmentDoctorReport::new(
        String::from("windows"),
        String::from("x86_64"),
        vec![String::from("raw_input")],
        String::from("send_input"),
        String::from("register_hotkey"),
        "ctrl+alt+shift+f12".parse::<HotkeyBinding>().expect("parses"),
        checks,
    )
}

#[test]
fn diagnostic_checks_text_renders_check_names_and_statuses() {
    let report = environment_report(Some(DiagnosticCheck::warn(
        String::from("process_elevation"),
        String::from("not elevated"),
    )));
    let checks_text = build_diagnostic_checks_text(
        &report,
        "Playback ready.",
        "No playback warnings or failures.",
    );

    assert!(checks_text.contains("[warn] process_elevation"));
    assert!(!checks_text.contains("[pass] recording_backends"));
    assert_eq!(
        checks_text,
        "Playback\nPlayback ready.\nNo playback warnings or failures.\n\nEnvironment\n[warn] process_elevation: not elevated"
    );
    assert_eq!(compact_process_elevation_status(&report), "process not elevated");
    assert_eq!(
        compact_process_elevation_status(&environment_report(None)),
        "elevation status unavailable"
    );
}

#[test]
fn issue_lines_list_only_checks_that_did_not_pass() {
    let checks = vec![
        DiagnosticCheck::fail(String::from("a"), String::from("broken")),
        DiagnosticCheck::pass(String::from("b"), String::from("fine")),
        DiagnosticCheck::warn(String::from("c"), String::from("odd")),
    ];
    assert_eq!(build_issue_lines(&checks, "none"), "[fail] a: broken\n[warn] c: odd");
    assert_eq!(build_issue_lines(&checks[1..2], "none"), "none");
}

#[test]
fn hotkey_key_positions_round_trip() {
    assert_eq!(hotkey_key_index(HotkeyKey::Escape), 0);
    assert_eq!(hotkey_key_index(HotkeyKey::F12), 12);
    assert_eq!(hotkey_key_from_index(9), Some(HotkeyKey::F9));
    assert_eq!(hotkey_key_from_index(13), None);
    assert_eq!(hotkey_key_from_index(-1), None);
}
