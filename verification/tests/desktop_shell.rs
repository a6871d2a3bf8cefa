use std::path::PathBuf;

use regxorder::cli::RecordingStrategy;
use regxorder::diagnostics::{DiagnosticCheck, EnvironmentDoctorReport};
use regxorder::editor::EditingSession;
use regxorder::event::{
    AbsoluteScreenPoint, DisplayMetadata, EventOffset, InputAction, InputEvent, KeyDescriptor,
    MouseButton, NormalizedCoordinate, NormalizedScreenPoint, PointerPosition, ScanCode,
    SchemaVersion, ScreenSize, SpeedMultiplier,
};
use regxorder::hotkey::{HotkeyBinding, HotkeyKey, HotkeyModifier, HotkeyParseError};
use regxorder::presentation::{
    build_event_duration_items, build_event_index_items, build_event_parameter_items,
    build_event_type_items, build_visible_event_rows, EventListFilter,
};
use regxorder::recording::{Recording, RecordingMetadata};
use regxorder::library::{
    build_invalid_recordings_summary, build_invalid_summary_with_names, build_recording_title_items,
    display_title_for_recording, display_title_with_file_name, InvalidRecordingEntry,
    RecordingLibraryEntry, RecordingLibraryState,
};
use regxorder::shell::{
    build_diagnostics_summary, build_selected_recording_sections, capture_destination,
    ActionExecutionState, ActiveView, AppConfiguration, DesktopShellModel,
};

fn key_a() -> KeyDescriptor {
    KeyDescriptor {
        scan_code: ScanCode::new(30),
        logical_name: Some(String::from("A")),
        extended: false,
    }
}

fn display() -> DisplayMetadata {
    DisplayMetadata {
        virtual_origin: AbsoluteScreenPoint { x: 0, y: 0 },
        virtual_size: ScreenSize {
            width: 1920,
            height: 1080,
        },
        monitors: Vec::new(),
    }
}

fn event(sequence: u64, micros: u64, action: InputAction) -> InputEvent {
    InputEvent {
        sequence,
        elapsed_time: EventOffset::from_micros(micros),
        action,
    }
}

fn sample_recording(title: Option<&str>) -> Recording {
    Recording::new(
        RecordingMetadata {
            schema_version: SchemaVersion::new(1),
            title: title.map(ToOwned::to_owned),
            display: display(),
        },
        vec![
            event(0, 0, InputAction::KeyPressed { key: key_a() }),
            event(1, 40_000, InputAction::KeyReleased { key: key_a() }),
        ],
    )
    .expect("sample recording should be valid")
}

fn normalized(value: f64, axis: &'static str) -> NormalizedCoordinate {
    NormalizedCoordinate::from_bits(value.to_bits(), axis).expect("normalized value should be valid")
}

fn pointer(x: i32, y: i32, nx: f64, ny: f64) -> InputAction {
    InputAction::PointerMoved {
        position: PointerPosition {
            absolute: AbsoluteScreenPoint { x, y },
            normalized: NormalizedScreenPoint {
                x: normalized(nx, "x"),
                y: normalized(ny, "y"),
            },
        },
    }
}

fn sample_mixed_recording() -> Recording {
    Recording::new(
        RecordingMetadata {
            schema_version: SchemaVersion::new(1),
            title: Some(String::from("Mixed sample")),
            display: display(),
        },
        vec![
            event(0, 0, InputAction::KeyPressed { key: key_a() }),
            event(1, 5_000, pointer(200, 160, 0.104, 0.148)),
            event(
                2,
                8_000,
                InputAction::MouseButtonPressed {
                    button: MouseButton::Left,
                },
            ),
            event(3, 12_000, pointer(240, 180, 0.125, 0.166)),
            event(
                4,
                18_000,
                InputAction::MouseButtonReleased {
                    button: MouseButton::Left,
                },
            ),
        ],
    )
    .expect("mixed sample recording should be valid")
}

fn entry(path: &str, recording: Recording, file_size_bytes: u64) -> RecordingLibraryEntry {
    RecordingLibraryEntry::from_loaded(String::from(path), recording, file_size_bytes)
}

fn binding(modifiers: Vec<HotkeyModifier>, key: HotkeyKey) -> HotkeyBinding {
    HotkeyBinding::new(modifiers, key).expect("sample hotkey should be valid")
}

fn sample_environment_report() -> EnvironmentDoctorReport {
    EnvironmentDoctorReport::new(
        String::from("windows"),
        String::from("x86_64"),
        vec![String::from("raw_input"), String::from("low_level_hooks")],
        String::from("send_input"),
        String::from("register_hotkey"),
        binding(
            vec![
                HotkeyModifier::Control,
                HotkeyModifier::Alt,
                HotkeyModifier::Shift,
            ],
            HotkeyKey::F12,
        ),
        vec![
            DiagnosticCheck::pass(
                String::from("recording_backends"),
                String::from(
                    "Raw Input and low-level hook recording backends are compiled into this build",
                ),
            ),
            DiagnosticCheck::warn(
                String::from("process_elevation"),
                String::from(
                    "the current regxorder process is not elevated; playback into elevated targets may be blocked by UIPI",
                ),
            ),
        ],
    )
}

fn speed(value: f64) -> SpeedMultiplier {
    SpeedMultiplier::from_bits(value.to_bits()).expect("speed should be valid")
}

fn sample_model() -> DesktopShellModel {
    let alpha_recording = sample_recording(Some("Alpha sample"));
    let beta_recording = sample_recording(Some("Beta sample"));

    DesktopShellModel {
        active_view: ActiveView::Editor,
        recording_library: RecordingLibraryState {
            session_directory: String::from("sessions"),
            recordings: vec![
                entry("sessions/alpha.json", alpha_recording, 512),
                entry("sessions/beta.json", beta_recording, 768),
            ],
            invalid_recordings: vec![InvalidRecordingEntry {
                path: String::from("sessions/broken.json"),
                reason: String::from("invalid json"),
            }],
            selected_recording_index: Some(0),
        },
        editing_session: Some(EditingSession::from_library_entry(&entry(
            "sessions/alpha.json",
            sample_recording(Some("Alpha sample")),
            512,
        ))),
        configuration: AppConfiguration::default(),
        event_list_filter: EventListFilter::default(),
        environment_report: sample_environment_report(),
        selected_playback_loop_count: 1,
        selected_playback_speed: speed(1.0),
        playback_loop_input_text: String::from("1"),
        action_execution_state: ActionExecutionState::Idle,
        action_running: false,
    }
}

fn mixed_session() -> EditingSession {
    EditingSession::from_library_entry(&entry("sessions/mixed.json", sample_mixed_recording(), 640))
}

#[test]
fn shell_state_from_model_mentions_live_environment_status() {
    let state = sample_model().shell_state("40.000 ms");

    assert!(state.diagnostics_summary.contains("Status"));
}

#[test]
fn dirty_editor_disables_recording_and_playback_controls() {
    let mut model = sample_model();

    model
        .delete_visible_event(0)
        .expect("deleting a visible event should dirty the editor");

    let state = model.shell_state("18.000 ms");
    assert!(!state.can_start_recording);
    assert!(!state.can_play_selected_recording);
    assert!(!state.can_delete_selected_recording);
}

#[test]
fn recording_list_builders_return_titles_and_subtitles() {
    let model = sample_model();
    let recording_titles = build_recording_title_items(&model.recording_library);

    assert_eq!(recording_titles[0], "Alpha sample");
}

#[test]
fn blank_recording_titles_fall_back_to_the_file_name() {
    let recording = sample_recording(None);

    assert_eq!(
        display_title_for_recording("sessions/capture-001.json", &recording),
        "capture-001.json"
    );
}

#[test]
fn playback_request_uses_selected_recording_and_speed() {
    let mut model = sample_model();
    model.set_playback_loop_input_text(String::from("3"));
    model.commit_playback_loop_input_text();
    model.set_playback_speed(speed(2.0));

    let playback_request = model
        .begin_playback_request()
        .expect("playback request should be available");

    assert_eq!(playback_request.recording_title, "Alpha sample");
    assert_eq!(playback_request.loop_count, 3);
    assert_eq!(f64::from_bits(playback_request.speed.to_bits()), 2.0);
    assert!(matches!(
        model.action_execution_state,
        ActionExecutionState::PlaybackRunning { .. }
    ));
    assert!(model.action_running);
}

#[test]
fn playback_loop_input_clamps_to_supported_range() {
    let mut model = sample_model();

    model.set_playback_loop_input_text(String::from("0"));
    assert_eq!(model.selected_playback_loop_count, 1);
    assert_eq!(model.playback_loop_input_text, "0");

    model.commit_playback_loop_input_text();
    assert_eq!(model.playback_loop_input_text, "1");

    model.set_playback_loop_input_text(String::from("12000"));
    assert_eq!(model.selected_playback_loop_count, 9999);

    model.commit_playback_loop_input_text();
    assert_eq!(model.playback_loop_input_text, "9999");
}

#[test]
fn recording_request_uses_next_available_capture_path() {
    let mut model = sample_model();

    let recording_request = model
        .begin_recording_request(capture_destination(1))
        .expect("recording request should be available");

    assert_eq!(recording_request.recording_title, "Capture 001");
    assert_eq!(
        PathBuf::from(&model.recording_library.session_directory)
            .join(&recording_request.output_file_name),
        PathBuf::from("sessions").join("capture-001.json")
    );
    assert!(matches!(
        model.action_execution_state,
        ActionExecutionState::RecordingRunning { .. }
    ));
}

#[test]
fn deleting_selected_event_marks_editor_dirty_and_resequences() {
    let mut model = sample_model();

    model
        .delete_selected_event()
        .expect("selected event should delete cleanly");

    let editing_session = model
        .editing_session
        .as_ref()
        .expect("editing session should still exist");
    assert!(editing_session.is_dirty());
    assert_eq!(editing_session.working_recording().event_count(), 1);
    assert_eq!(editing_session.working_recording().events()[0].sequence, 0);
}

#[test]
fn duplicating_selected_event_inserts_a_new_editable_row() {
    let mut model = sample_model();

    model
        .duplicate_selected_event()
        .expect("selected event should duplicate cleanly");

    let editing_session = model
        .editing_session
        .as_ref()
        .expect("editing session should still exist");
    assert!(editing_session.is_dirty());
    assert_eq!(editing_session.working_recording().event_count(), 3);
    assert_eq!(editing_session.selected_event_index(), Some(1));
    assert_eq!(
        editing_session.working_recording().events()[1].action,
        editing_session.working_recording().events()[0].action
    );
}

#[test]
fn toggling_selected_key_event_switches_pressed_and_released_state() {
    let mut model = sample_model();

    model
        .toggle_selected_event_state()
        .expect("selected key event should toggle cleanly");

    let editing_session = model
        .editing_session
        .as_ref()
        .expect("editing session should still exist");
    assert!(matches!(
        editing_session.working_recording().events()[0].action,
        InputAction::KeyReleased { .. }
    ));
}

#[test]
fn nudging_selected_event_clamps_against_neighbor_timings() {
    let mut model = sample_model();
    model.select_event(1);

    model
        .nudge_selected_event(-100_000)
        .expect("selected event timing should update");

    let editing_session = model
        .editing_session
        .as_ref()
        .expect("editing session should still exist");
    assert_eq!(
        editing_session.working_recording().events()[1]
            .elapsed_time
            .as_micros(),
        editing_session.working_recording().events()[0]
            .elapsed_time
            .as_micros()
    );
}

#[test]
fn visible_event_rows_hide_pointer_moves_by_default() {
    let editing_session = mixed_session();
    let visible_rows = build_visible_event_rows(Some(&editing_session), EventListFilter::default());

    assert_eq!(visible_rows.len(), 3);
    assert!(!visible_rows.iter().any(|row| row.type_label == "Mouse Move"));
}

#[test]
fn shell_state_exposes_filter_counts_for_each_event_type() {
    let mut model = sample_model();
    model.recording_library.recordings = vec![entry("sessions/mixed.json", sample_mixed_recording(), 640)];
    model.recording_library.selected_recording_index = Some(0);
    model.editing_session = Some(mixed_session());

    let state = model.shell_state("18.000 ms");

    assert_eq!(state.filter_key_event_count_label, "1");
    assert_eq!(state.filter_mouse_button_event_count_label, "2");
    assert_eq!(state.filter_mouse_wheel_event_count_label, "0");
    assert_eq!(state.filter_pointer_move_event_count_label, "2");
}

#[test]
fn stop_hotkey_settings_update_the_requested_backend_hotkey() {
    let mut model = sample_model();

    model
        .set_stop_hotkey_modifier(HotkeyModifier::Alt, true)
        .expect("adding a modifier should keep the hotkey valid");
    model.set_stop_hotkey_key(HotkeyKey::F9);

    let playback_request = model
        .begin_playback_request()
        .expect("playback request should be available");

    assert_eq!(
        playback_request
            .stop_hotkey
            .as_ref()
            .expect("playback request should carry the configured hotkey")
            .to_string(),
        "Ctrl+Alt+Shift+F9"
    );
}

#[test]
fn stop_hotkey_settings_reject_removing_the_last_modifier() {
    let mut model = sample_model();

    model
        .set_stop_hotkey_modifier(HotkeyModifier::Control, false)
        .expect("one modifier can be removed while one still remains");
    let error = model
        .set_stop_hotkey_modifier(HotkeyModifier::Shift, false)
        .expect_err("the last modifier should not be removable");

    assert!(error.contains("hotkeys require at least one modifier"));
    assert_eq!(
        model.configuration.stop_action_hotkey.to_string(),
        "Shift+F12"
    );
}

#[test]
fn selecting_visible_event_uses_filtered_source_index() {
    let mut model = sample_model();
    model.editing_session = Some(mixed_session());
    model.sync_event_selection_to_filter();

    model.select_event(1);

    assert_eq!(
        model
            .editing_session
            .as_ref()
            .and_then(|editing_session| editing_session.selected_event_index()),
        Some(2)
    );
}

#[test]
fn deleting_a_visible_event_changes_only_the_working_copy() {
    let mut model = sample_model();
    model.recording_library.recordings = vec![entry("sessions/mixed.json", sample_mixed_recording(), 640)];
    model.recording_library.selected_recording_index = Some(0);
    model.editing_session = Some(mixed_session());

    model
        .delete_visible_event(1)
        .expect("visible button row should delete cleanly");

    let editing_session = model.editing_session.as_ref().expect("session stays");
    assert_eq!(editing_session.working_recording().event_count(), 4);
    assert!(!editing_session
        .working_recording()
        .events()
        .iter()
        .any(|event| matches!(
            event.action,
            InputAction::MouseButtonPressed {
                button: MouseButton::Left
            }
        )));
    assert_eq!(editing_session.original_recording().event_count(), 5);
    assert_eq!(
        model.recording_library.recordings[0].recording.event_count(),
        5
    );
    match &model.action_execution_state {
        ActionExecutionState::Notice(message) => {
            assert_eq!(message, "Removed Left Down from the working copy.")
        }
        other => panic!("unexpected state {other:?}"),
    }

    let save = model
        .pending_save()
        .expect("a session is loaded")
        .expect("the working copy differs");
    assert_eq!(save.path, "sessions/mixed.json");
    assert_eq!(save.recording.event_count(), 4);
}

#[test]
fn edits_are_refused_while_an_action_runs() {
    let mut model = sample_model();
    model.action_running = true;

    assert_eq!(
        model.delete_selected_event().unwrap_err(),
        "Stop the active action before editing the event list."
    );
    assert_eq!(
        model.delete_visible_event(0).unwrap_err(),
        "Stop the active action before editing the event list."
    );
    assert_eq!(
        model.nudge_selected_event(5).unwrap_err(),
        "Stop the active action before editing the event list."
    );
    assert_eq!(
        model.begin_playback_request().unwrap_err(),
        "Another action is already running. Stop it before starting playback."
    );
    assert_eq!(
        model
            .begin_recording_request(capture_destination(1))
            .unwrap_err(),
        "Another action is already running. Stop it before starting a new recording."
    );
    assert_eq!(
        model.recording_to_delete().unwrap_err(),
        "Stop the active action before deleting a session."
    );
    assert!(!model.editing_session.as_ref().expect("session").is_dirty());
}

#[test]
fn edits_without_a_session_are_refused() {
    let mut model = sample_model();
    model.editing_session = None;

    assert_eq!(
        model.duplicate_selected_event().unwrap_err(),
        "No session is loaded into the editor."
    );
    assert_eq!(
        model.toggle_selected_event_state().unwrap_err(),
        "No session is loaded into the editor."
    );
    assert_eq!(
        model.delete_visible_event(0).unwrap_err(),
        "Select a visible event before deleting it."
    );
    assert_eq!(
        model.pending_save().unwrap_err(),
        "No session is loaded into the editor."
    );
}

#[test]
fn unsaved_changes_block_switching_recording_and_deleting() {
    let mut model = sample_model();
    model.delete_selected_event().expect("deletes");

    model.select_recording(1);
    assert_eq!(model.recording_library.selected_recording_index, Some(0));
    match &model.action_execution_state {
        ActionExecutionState::Notice(message) => assert_eq!(
            message,
            "Save or revert the current editor changes before switching sessions."
        ),
        other => panic!("unexpected state {other:?}"),
    }
    assert_eq!(
        model.recording_to_delete().unwrap_err(),
        "Save or revert the current editor changes before deleting a session."
    );
    assert_eq!(
        model
            .begin_recording_request(capture_destination(2))
            .unwrap_err(),
        "Save or revert the current editor changes before starting a new recording."
    );

    model.revert_editor_changes();
    assert!(!model.editing_session.as_ref().expect("session").is_dirty());
    model.select_recording(1);
    assert_eq!(model.recording_library.selected_recording_index, Some(1));
    assert_eq!(
        model.current_recording_title().as_deref(),
        Some("Beta sample")
    );
    assert_eq!(
        model.current_selected_path().as_deref(),
        Some("sessions/beta.json")
    );
    assert_eq!(model.recording_to_delete().as_deref(), Ok("sessions/beta.json"));
}

#[test]
fn filters_move_the_selection_onto_shown_events() {
    let mut model = sample_model();
    model.editing_session = Some(mixed_session());
    model.select_event(2);
    assert_eq!(
        model.editing_session.as_ref().and_then(|s| s.selected_event_index()),
        Some(4)
    );

    model.set_show_mouse_button_events(false);
    assert_eq!(
        model.editing_session.as_ref().and_then(|s| s.selected_event_index()),
        Some(0)
    );

    model.set_show_key_events(false);
    assert_eq!(
        model.editing_session.as_ref().and_then(|s| s.selected_event_index()),
        None
    );

    model.set_show_pointer_move_events(true);
    assert_eq!(
        model.editing_session.as_ref().and_then(|s| s.selected_event_index()),
        Some(1)
    );
    model.set_show_mouse_wheel_events(false);
    assert_eq!(
        model.editing_session.as_ref().and_then(|s| s.selected_event_index()),
        Some(1)
    );
}

#[test]
fn loop_count_box_keeps_typed_text_until_committed() {
    let mut model = sample_model();
    model.set_playback_loop_input_text(String::from("  "));
    assert_eq!(model.playback_loop_input_text, "1");

    model.set_playback_loop_input_text(String::from("abc"));
    assert_eq!(model.playback_loop_input_text, "abc");
    assert_eq!(model.selected_playback_loop_count, 1);
    model.commit_playback_loop_input_text();
    assert_eq!(model.playback_loop_input_text, "1");

    model.set_playback_loop_count(0);
    assert_eq!(model.selected_playback_loop_count, 1);
    model.set_playback_loop_count(u16::MAX);
    assert_eq!(model.selected_playback_loop_count, 9999);
    assert_eq!(model.playback_loop_input_text, "9999");
}

#[test]
fn capture_destinations_number_recordings_with_three_digits() {
    let first = capture_destination(1);
    assert_eq!(first.recording_title, "Capture 001");
    assert_eq!(first.file_name, "capture-001.json");
    let later = capture_destination(1234);
    assert_eq!(later.recording_title, "Capture 1234");
    assert_eq!(later.file_name, "capture-1234.json");
}

#[test]
fn finishing_a_recording_returns_its_path_and_shows_the_editor() {
    let mut model = sample_model();
    model
        .begin_recording_request(capture_destination(1))
        .expect("starts");
    model.set_active_view(ActiveView::Settings);

    let output = model.finish_action(ActionExecutionState::RecordingCompleted {
        recording_title: String::from("Capture 001"),
        output_path: String::from("sessions/capture-001.json"),
        event_count: 2,
        duration_micros: 40_000,
    });
    assert_eq!(output.as_deref(), Some("sessions/capture-001.json"));
    assert!(!model.action_running);
    assert_eq!(model.active_view, ActiveView::Editor);

    model.set_active_view(ActiveView::Diagnostics);
    let output = model.finish_action(ActionExecutionState::PlaybackFailed {
        recording_title: String::from("Alpha sample"),
        speed: speed(1.0),
        reason: String::from("blocked"),
    });
    assert_eq!(output, None);
    assert_eq!(model.active_view, ActiveView::Diagnostics);
}

#[test]
fn library_reloads_reopen_the_editor_on_the_selection() {
    let mut model = sample_model();
    let library = RecordingLibraryState::from_discovered(
        String::from("sessions"),
        vec![
            entry("sessions/alpha.json", sample_recording(Some("Alpha sample")), 512),
            entry("sessions/mixed.json", sample_mixed_recording(), 640),
        ],
        Vec::new(),
        Some("sessions/mixed.json"),
    );
    assert_eq!(library.selected_recording_index, Some(1));
    model.replace_library(library);
    let session = model.editing_session.as_ref().expect("opened");
    assert_eq!(session.source_path(), "sessions/mixed.json");
    assert_eq!(session.selected_event_index(), Some(0));

    model.delete_selected_event().expect("deletes");
    let library = RecordingLibraryState::from_discovered(
        String::from("sessions"),
        vec![entry("sessions/alpha.json", sample_recording(Some("Alpha sample")), 512)],
        Vec::new(),
        None,
    );
    model.refresh_library(library);
    assert_eq!(model.recording_library.selected_recording_index, Some(0));
    assert_eq!(
        model.editing_session.as_ref().expect("kept").source_path(),
        "sessions/mixed.json"
    );

    let empty = RecordingLibraryState::from_discovered(String::from("sessions"), Vec::new(), Vec::new(), None);
    assert_eq!(empty.selected_recording_index, None);
    model.after_recording_deleted(empty);
    assert!(model.editing_session.is_none());
    assert!(model.editable_recording().is_none());
    assert_eq!(
        model.begin_playback_request().unwrap_err(),
        "Select a validated recording before starting playback."
    );
    assert_eq!(
        model.recording_to_delete().unwrap_err(),
        "Select a session before deleting it."
    );
    assert_eq!(
        build_recording_title_items(&model.recording_library),
        vec![String::from("No validated recordings found yet")]
    );
}

#[test]
fn saving_reopens_the_session_and_keeps_the_selection() {
    let mut model = sample_model();
    assert!(model.pending_save().expect("loaded").is_none());
    model.select_event(1);
    model.nudge_selected_event(-10_000).expect("nudges");
    let save = model.pending_save().expect("loaded").expect("dirty");
    assert_eq!(save.recording.events()[1].elapsed_time.as_micros(), 30_000);

    let library = RecordingLibraryState::from_discovered(
        String::from("sessions"),
        vec![entry("sessions/alpha.json", save.recording, 512)],
        Vec::new(),
        Some("sessions/alpha.json"),
    );
    model.finish_save(library);
    let session = model.editing_session.as_ref().expect("reopened");
    assert!(!session.is_dirty());
    assert_eq!(session.selected_event_index(), Some(1));
    match &model.action_execution_state {
        ActionExecutionState::Notice(message) => {
            assert_eq!(message, "Saved changes to sessions/alpha.json.")
        }
        other => panic!("unexpected state {other:?}"),
    }
}

#[test]
fn new_models_start_with_default_settings() {
    let library = RecordingLibraryState::from_discovered(
        String::from("sessions"),
        vec![entry("sessions/mixed.json", sample_mixed_recording(), 640)],
        Vec::new(),
        None,
    );
    let model = DesktopShellModel::new(library, sample_environment_report());
    assert_eq!(model.active_view, ActiveView::Editor);
    assert_eq!(model.configuration.recording_strategy, RecordingStrategy::RawInput);
    assert_eq!(model.configuration.stop_action_hotkey.to_string(), "Ctrl+Shift+F12");
    assert_eq!(model.selected_playback_loop_count, 1);
    assert_eq!(model.playback_loop_input_text, "1");
    assert_eq!(f64::from_bits(model.selected_playback_speed.to_bits()), 1.0);
    assert!(matches!(model.action_execution_state, ActionExecutionState::Idle));
    assert!(!model.action_running);
    assert_eq!(
        model.editing_session.as_ref().and_then(|s| s.selected_event_index()),
        Some(0)
    );

    let state = model.shell_state("18.000 ms");
    assert!(state.show_editor_view && state.editor_tab_selected);
    assert!(!state.show_settings_view && !state.diagnostics_tab_selected);
    assert_eq!(state.session_directory, "Sessions directory: sessions");
    assert!(state.has_recordings);
    assert_eq!(state.recording_titles, vec![String::from("Mixed sample")]);
    assert_eq!(state.selected_recording_index, 0);
    assert_eq!(state.event_index_labels, vec!["1", "3", "5"]);
    assert_eq!(state.event_type_labels, vec!["Key Down", "Click Down", "Click Up"]);
    assert_eq!(state.event_parameter_labels, vec!["A · scan 30", "Left", "Left"]);
    assert_eq!(
        state.event_duration_labels,
        vec!["00:00:00.000", "00:00:00.008", "00:00:00.018"]
    );
    assert_eq!(
        state.stop_hotkey_summary,
        "Stop recording or playback with Ctrl+Shift+F12 using register_hotkey."
    );
    assert!(state.stop_hotkey_control_selected && state.stop_hotkey_shift_selected);
    assert!(!state.stop_hotkey_alt_selected && !state.stop_hotkey_win_selected);
    assert_eq!(state.stop_hotkey_key_index, 12);
    assert_eq!(state.stop_hotkey_key_label, "F12");
    assert!(state.can_start_recording && state.can_play_selected_recording);
    assert!(!state.can_stop_active_action && !state.can_save_editor_changes);
    assert!(state.can_delete_selected_recording);
    assert!(state.recording_strategy_raw_selected && !state.recording_strategy_low_level_selected);
    assert_eq!(
        state.diagnostics_summary,
        "Status warn · recording raw_input, low_level_hooks · playback send_input · hotkey register_hotkey · session Mixed sample"
    );
    assert_eq!(state.selected_recording_title, "Mixed sample");
    assert_eq!(
        state.selected_recording_details,
        "sessions/mixed.json\n5 events · 18.000 ms · saved session\nDisplay 1920x1080 @ 0,0\nChecks 3 pass · 0 warn · 0 fail"
    );
    assert_eq!(
        state.playback_summary,
        "Ready at 1.0x · 5 events · 5 peak/s · cleanup 0 skipped / 1 appended"
    );
    assert_eq!(
        state.playback_checks,
        "[warn] prepared_playback_plan: prepared playback skipped 0 unmatched releases and appended 1 terminal cleanup releases"
    );
    assert_eq!(
        state.diagnostics_checks,
        format!(
            "Playback\n{}\n{}\n\nEnvironment\n[warn] process_elevation: the current regxorder process is not elevated; playback into elevated targets may be blocked by UIPI",
            state.playback_summary, state.playback_checks
        )
    );
}

#[test]
fn selected_recording_sections_describe_the_editor_session() {
    let (title, details, readiness, checks) =
        build_selected_recording_sections(None, "unused");
    assert_eq!(title, "No session selected");
    assert_eq!(details, "Choose a session from the library to edit it here.");
    assert_eq!(
        readiness,
        "Playback readiness appears here after you select a schema v1 recording."
    );
    assert_eq!(checks, "No playback warnings or failures to show.");

    let mut model = sample_model();
    model.delete_selected_event().expect("deletes");
    let (title, details, readiness, checks) = build_selected_recording_sections(
        model.editing_session.as_ref(),
        "0 us",
    );
    assert_eq!(title, "Alpha sample");
    assert_eq!(
        details,
        "sessions/alpha.json\n1 events · 0 us · unsaved changes\nDisplay 1920x1080 @ 0,0\nChecks 3 pass · 0 warn · 0 fail"
    );
    assert_eq!(
        readiness,
        "Ready at 1.0x · 1 events · 1 peak/s · cleanup 1 skipped / 0 appended"
    );
    assert_eq!(
        checks,
        "[warn] prepared_playback_plan: prepared playback skipped 1 unmatched releases and appended 0 terminal cleanup releases"
    );
}

#[test]
fn event_table_shows_placeholders_when_there_is_nothing_to_list() {
    let rows = build_visible_event_rows(None, EventListFilter::default());
    assert_eq!(build_event_type_items(None, &rows), vec!["No session"]);
    assert_eq!(build_event_index_items(None, &rows), vec![""]);

    let empty = Recording::new(
        RecordingMetadata {
            schema_version: SchemaVersion::new(1),
            title: None,
            display: display(),
        },
        Vec::new(),
    )
    .expect("valid");
    let empty_session = EditingSession::from_recording(String::from("sessions/empty.json"), &empty);
    let rows = build_visible_event_rows(Some(&empty_session), EventListFilter::default());
    assert_eq!(build_event_type_items(Some(&empty_session), &rows), vec!["No events"]);

    let hidden = EventListFilter {
        show_key_events: false,
        show_mouse_button_events: false,
        show_mouse_wheel_events: false,
        show_pointer_move_events: false,
    };
    let session = mixed_session();
    let rows = build_visible_event_rows(Some(&session), hidden);
    assert_eq!(build_event_type_items(Some(&session), &rows), vec!["No matches"]);
    assert_eq!(
        build_event_parameter_items(Some(&session), &rows),
        vec!["Mouse moves are hidden by default. Enable more filters to show additional events."]
    );
    assert_eq!(build_event_duration_items(Some(&session), &rows), vec![""]);
}

#[test]
fn titles_fall_back_to_file_names_and_placeholders() {
    let untitled = sample_recording(None);
    let padded = sample_recording(Some("  Padded  "));
    assert_eq!(
        display_title_with_file_name(Some(String::from("a.json")), &untitled),
        "a.json"
    );
    assert_eq!(display_title_with_file_name(None, &untitled), "<unnamed recording>");
    assert_eq!(
        display_title_with_file_name(Some(String::from("a.json")), &padded),
        "Padded"
    );
    assert_eq!(display_title_for_recording("sessions/b.json", &padded), "Padded");
}

#[test]
fn diagnostics_summary_names_the_loaded_session() {
    let report = sample_environment_report();
    assert_eq!(
        build_diagnostics_summary(&report, None),
        "Status warn · recording raw_input, low_level_hooks · playback send_input · hotkey register_hotkey"
    );
    let session = mixed_session();
    assert_eq!(
        build_diagnostics_summary(&report, Some(&session)),
        "Status warn · recording raw_input, low_level_hooks · playback send_input · hotkey register_hotkey · session Mixed sample"
    );
}

#[test]
fn hotkey_parse_errors_explain_themselves() {
    assert_eq!(
        HotkeyParseError::MissingModifier.message(),
        "hotkeys require at least one modifier such as ctrl, alt, shift, or win"
    );
    assert_eq!(
        HotkeyParseError::DuplicateModifier {
            token: String::from("ctrl")
        }
        .message(),
        "hotkey modifier `ctrl` was provided more than once"
    );
    assert_eq!(
        HotkeyParseError::UnsupportedToken {
            token: String::from("f13")
        }
        .message(),
        "unsupported hotkey token `f13`; use modifiers like ctrl/alt/shift/win and keys like escape or f1-f12"
    );
    assert_eq!(
        HotkeyParseError::MissingBaseKey.message(),
        "hotkeys require a base key such as escape or f1-f12"
    );
}

#[test]
fn stop_hotkey_settings_toggle_each_modifier() {
    let mut model = sample_model();
    model
        .set_stop_hotkey_modifier(HotkeyModifier::Win, true)
        .expect("adds win");
    model
        .set_stop_hotkey_modifier(HotkeyModifier::Win, true)
        .expect("adding twice keeps one");
    assert_eq!(
        model.configuration.stop_action_hotkey.to_string(),
        "Ctrl+Shift+Win+F12"
    );
    model
        .set_stop_hotkey_modifier(HotkeyModifier::Alt, false)
        .expect("removing an absent modifier changes nothing");
    assert_eq!(
        model.configuration.stop_action_hotkey.to_string(),
        "Ctrl+Shift+Win+F12"
    );
    model.set_recording_strategy(RecordingStrategy::LowLevelHooks);
    let request = model
        .begin_recording_request(capture_destination(7))
        .expect("starts");
    assert_eq!(request.strategy, RecordingStrategy::LowLevelHooks);
    assert_eq!(
        request.stop_hotkey.expect("carries a hotkey").to_string(),
        "Ctrl+Shift+Win+F12"
    );
    assert_eq!(request.output_file_name, "capture-007.json");
}

#[test]
fn discovered_libraries_are_sorted_by_file_name() {
    let library = RecordingLibraryState::from_discovered(
        String::from("sessions"),
        vec![
            entry("sessions/zeta.json", sample_recording(Some("Zeta")), 1),
            entry("sessions/Beta.json", sample_recording(Some("Upper beta")), 2),
            entry("sessions/alpha.json", sample_recording(Some("Alpha")), 3),
        ],
        vec![
            InvalidRecordingEntry {
                path: String::from("sessions/b.json"),
                reason: String::from("second"),
            },
            InvalidRecordingEntry {
                path: String::from("sessions/a.json"),
                reason: String::from("first"),
            },
        ],
        Some("sessions/zeta.json"),
    );
    let paths: Vec<&str> = library
        .recordings
        .iter()
        .map(|entry| entry.path.as_str())
        .collect();
    assert_eq!(
        paths,
        vec!["sessions/Beta.json", "sessions/alpha.json", "sessions/zeta.json"]
    );
    assert_eq!(library.selected_recording_index, Some(2));
    assert_eq!(library.invalid_recordings[0].reason, "first");
    assert_eq!(library.invalid_recordings[1].reason, "second");

    let unmatched = RecordingLibraryState::from_discovered(
        String::from("sessions"),
        vec![entry("sessions/alpha.json", sample_recording(Some("Alpha")), 3)],
        Vec::new(),
        Some("sessions/missing.json"),
    );
    assert_eq!(unmatched.selected_recording_index, Some(0));
}

#[test]
fn unreadable_files_are_listed_with_their_reasons() {
    let model = sample_model();
    assert_eq!(
        build_invalid_recordings_summary(&model.recording_library),
        "broken.json: invalid json"
    );
    let mut library = RecordingLibraryState::from_discovered(String::from("sessions"), Vec::new(), Vec::new(), None);
    assert_eq!(build_invalid_recordings_summary(&library), "");
    library.invalid_recordings = vec![
        InvalidRecordingEntry {
            path: String::from("sessions/a.json"),
            reason: String::from("first"),
        },
        InvalidRecordingEntry {
            path: String::from("sessions/b.json"),
            reason: String::from("second"),
        },
    ];
    assert_eq!(
        build_invalid_summary_with_names(
            &library.invalid_recordings,
            &vec![Some(String::from("a.json")), None]
        ),
        "a.json: first\n<unnamed recording>: second"
    );
}

#[test]
fn settling_the_loop_count_twice_changes_nothing() {
    let mut model = sample_model();
    for typed in ["42", " 7 ", "0", "-3", "99999", "x", "", "+12"] {
        model.set_playback_loop_input_text(String::from(typed));
        model.commit_playback_loop_input_text();
        let count = model.selected_playback_loop_count;
        let text = model.playback_loop_input_text.clone();
        model.commit_playback_loop_input_text();
        assert_eq!(model.selected_playback_loop_count, count, "after {typed:?}");
        assert_eq!(model.playback_loop_input_text, text, "after {typed:?}");
        assert_eq!(text, count.to_string());
    }
}

#[test]
fn library_from_named_orders_by_the_given_names_and_keeps_ties_in_order() {
    let library = RecordingLibraryState::from_named(
        String::from("sessions"),
        vec![
            entry("sessions/b-second.json", sample_recording(Some("Second")), 10),
            entry("sessions/unnamed.json", sample_recording(Some("Unnamed")), 20),
            entry("sessions/a-first.json", sample_recording(Some("First")), 30),
            entry("sessions/b-again.json", sample_recording(Some("Again")), 40),
        ],
        &vec![
            Some(String::from("b.json")),
            None,
            Some(String::from("a.json")),
            Some(String::from("b.json")),
        ],
        &vec![false, false, true, false],
        vec![
            InvalidRecordingEntry {
                path: String::from("sessions/z.json"),
                reason: String::from("bad"),
            },
            InvalidRecordingEntry {
                path: String::from("sessions/y.json"),
                reason: String::from("worse"),
            },
        ],
        &vec![Some(String::from("z.json")), Some(String::from("y.json"))],
    );
    let paths: Vec<&str> = library.recordings.iter().map(|entry| entry.path.as_str()).collect();
    assert_eq!(
        paths,
        vec![
            "sessions/unnamed.json",
            "sessions/a-first.json",
            "sessions/b-second.json",
            "sessions/b-again.json"
        ]
    );
    let invalid: Vec<&str> = library.invalid_recordings.iter().map(|entry| entry.path.as_str()).collect();
    assert_eq!(invalid, vec!["sessions/y.json", "sessions/z.json"]);
    assert_eq!(library.selected_recording_index, Some(1));

    let unselected = RecordingLibraryState::from_named(
        String::from("sessions"),
        vec![entry("sessions/only.json", sample_recording(Some("Only")), 5)],
        &vec![Some(String::from("only.json"))],
        &vec![false],
        Vec::new(),
        &Vec::new(),
    );
    assert_eq!(unselected.selected_recording_index, Some(0));
}

#[test]
fn library_from_named_selects_the_first_flagged_entry_in_sorted_order() {
    let library = RecordingLibraryState::from_named(
        String::from("sessions"),
        vec![
            entry("sessions/c.json", sample_recording(Some("C")), 1),
            entry("sessions/b.json", sample_recording(Some("B")), 2),
            entry("sessions/a.json", sample_recording(Some("A")), 3),
        ],
        &vec![
            Some(String::from("c.json")),
            Some(String::from("b.json")),
            Some(String::from("a.json")),
        ],
        &vec![true, true, false],
        Vec::new(),
        &Vec::new(),
    );
    let paths: Vec<&str> = library.recordings.iter().map(|entry| entry.path.as_str()).collect();
    assert_eq!(paths, vec!["sessions/a.json", "sessions/b.json", "sessions/c.json"]);
    assert_eq!(library.selected_recording_index, Some(1));

    let empty = RecordingLibraryState::from_named(
        String::from("sessions"),
        Vec::new(),
        &Vec::new(),
        &Vec::new(),
        Vec::new(),
        &Vec::new(),
    );
    assert_eq!(empty.selected_recording_index, None);
}

#[test]
fn library_from_discovered_selects_the_saved_file_not_the_first() {
    let library = RecordingLibraryState::from_discovered(
        String::from("sessions"),
        vec![
            entry("sessions/zeta.json", sample_recording(Some("Zeta")), 1),
            entry("sessions/alpha.json", sample_recording(Some("Alpha")), 2),
            entry("sessions/mid.json", sample_recording(Some("Mid")), 3),
        ],
        Vec::new(),
        Some("sessions/zeta.json"),
    );
    assert_eq!(library.selected_recording_index, Some(2));
    assert_eq!(
        library.selected_recording().expect("selected").path,
        "sessions/zeta.json"
    );
}

#[test]
fn untitled_entries_and_sessions_show_their_file_names() {
    let library_entry = entry("sessions/untitled-7.json", sample_recording(None), 64);
    assert_eq!(library_entry.display_title(), "untitled-7.json");
    let session = EditingSession::from_recording(String::from("sessions/draft.json"), &sample_recording(None));
    assert_eq!(session.display_title(), "draft.json");

    let library = RecordingLibraryState::from_discovered(
        String::from("sessions"),
        vec![
            entry("sessions/b-untitled.json", sample_recording(None), 1),
            entry("sessions/a-titled.json", sample_recording(Some("Titled")), 2),
        ],
        vec![
            InvalidRecordingEntry {
                path: String::from("sessions/z.json"),
                reason: String::from("truncated"),
            },
            InvalidRecordingEntry {
                path: String::from("sessions/y.json"),
                reason: String::from("not json"),
            },
        ],
        None,
    );
    assert_eq!(build_recording_title_items(&library), vec!["Titled", "b-untitled.json"]);
    assert_eq!(
        build_invalid_recordings_summary(&library),
        "y.json: not json\nz.json: truncated"
    );
}
