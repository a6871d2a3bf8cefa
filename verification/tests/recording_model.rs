use regxorder::diagnostics::{diagnose_playback, diagnose_recording, DiagnosticStatus};
use regxorder::error::ValidationError;
use regxorder::event::{
    AbsoluteScreenPoint, DisplayMetadata, EventOffset, InputAction, InputEvent, KeyDescriptor,
    MouseButton, NormalizedCoordinate, NormalizedScreenPoint, PointerPosition, ScanCode,
    SchemaVersion, ScreenSize, ScrollAxis, SpeedMultiplier,
};
use regxorder::recording::{Recording, RecordingMetadata};
use regxorder::session::{
    finalize_recording_session, prepare_playback_plan, push_captured, PlaybackAction,
    PlaybackProgress,
};

fn metadata(title: &str, width: u32, height: u32) -> RecordingMetadata {
    RecordingMetadata {
        schema_version: SchemaVersion::new(1),
        title: Some(String::from(title)),
        display: DisplayMetadata {
            virtual_origin: AbsoluteScreenPoint { x: 0, y: 0 },
            virtual_size: ScreenSize { width, height },
            monitors: Vec::new(),
        },
    }
}

fn validation_metadata() -> RecordingMetadata {
    metadata("Validation sample", 2560, 1440)
}

fn session_metadata() -> RecordingMetadata {
    metadata("Session sample", 1920, 1080)
}

fn key_a() -> KeyDescriptor {
    KeyDescriptor {
        scan_code: ScanCode::new(30),
        logical_name: Some(String::from("A")),
        extended: false,
    }
}

fn event(sequence: u64, micros: u64, action: InputAction) -> InputEvent {
    InputEvent {
        sequence,
        elapsed_time: EventOffset::from_micros(micros),
        action,
    }
}

fn validation_events() -> Vec<InputEvent> {
    vec![
        event(0, 10_000, InputAction::KeyPressed { key: key_a() }),
        event(
            1,
            12_000,
            InputAction::MouseButtonPressed {
                button: MouseButton::Left,
            },
        ),
    ]
}

fn pointer_at(x: i32, y: i32, nx: f64, ny: f64) -> PointerPosition {
    PointerPosition {
        absolute: AbsoluteScreenPoint { x, y },
        normalized: NormalizedScreenPoint {
            x: NormalizedCoordinate::from_bits(nx.to_bits(), "x").expect("x is in range"),
            y: NormalizedCoordinate::from_bits(ny.to_bits(), "y").expect("y is in range"),
        },
    }
}

#[test]
fn recording_validation_rejects_non_consecutive_sequences() {
    let mut events = validation_events();
    events[1].sequence = 3;

    let error = Recording::new(validation_metadata(), events)
        .expect_err("recording should reject sequence gaps");

    assert_eq!(
        error,
        ValidationError::NonConsecutiveSequence {
            expected: 1,
            found: 3,
        }
    );
}

#[test]
fn recording_validation_rejects_non_monotonic_elapsed_times() {
    let mut events = validation_events();
    events[1].elapsed_time = EventOffset::from_micros(9_000);

    let error = Recording::new(validation_metadata(), events)
        .expect_err("recording should reject reversed timing");

    assert_eq!(
        error,
        ValidationError::NonMonotonicElapsedTime {
            previous_micros: 10_000,
            found_micros: 9_000,
        }
    );
}

#[test]
fn recording_validation_rejects_zero_sized_virtual_displays() {
    let mut metadata = validation_metadata();
    metadata.display.virtual_size.width = 0;

    let error = Recording::new(metadata, validation_events())
        .expect_err("recording should reject zero-sized displays");

    assert_eq!(
        error,
        ValidationError::ZeroSizedSurface {
            context: "virtual display",
            width: 0,
            height: 1440,
        }
    );
}

#[test]
fn recording_duration_matches_the_last_event_elapsed_time() {
    let recording = Recording::new(validation_metadata(), validation_events())
        .expect("sample recording is valid");

    assert_eq!(recording.event_count(), 2);
    assert_eq!(recording.duration().as_micros(), 12_000);
}

#[test]
fn recording_metrics_track_action_counts_and_peak_second_density() {
    let recording = Recording::new(
        validation_metadata(),
        vec![
            event(0, 10_000, InputAction::KeyPressed { key: key_a() }),
            event(
                1,
                20_000,
                InputAction::PointerMoved {
                    position: pointer_at(10, 20, 10.0 / 2559.0, 20.0 / 1439.0),
                },
            ),
            event(
                2,
                900_000,
                InputAction::MouseWheelScrolled {
                    axis: ScrollAxis::Vertical,
                    delta: 120,
                },
            ),
            event(
                3,
                1_100_000,
                InputAction::MouseButtonPressed {
                    button: MouseButton::Left,
                },
            ),
            event(
                4,
                1_500_000,
                InputAction::MouseButtonReleased {
                    button: MouseButton::Left,
                },
            ),
            event(5, 2_000_000, InputAction::KeyReleased { key: key_a() }),
        ],
    )
    .expect("metrics sample recording should be valid");

    let metrics = recording.metrics();

    assert_eq!(metrics.total_events, 6);
    assert_eq!(metrics.duration_micros, 2_000_000);
    assert_eq!(metrics.peak_events_per_second, 3);
    assert_eq!(metrics.action_counts.key_pressed_events, 1);
    assert_eq!(metrics.action_counts.key_released_events, 1);
    assert_eq!(metrics.action_counts.pointer_moved_events, 1);
    assert_eq!(metrics.action_counts.mouse_button_pressed_events, 1);
    assert_eq!(metrics.action_counts.mouse_button_released_events, 1);
    assert_eq!(metrics.action_counts.mouse_wheel_scrolled_events, 1);
    assert_eq!(metrics.action_counts.total_events(), 6);
}

#[test]
fn recording_validation_rejects_blank_titles_and_other_schema_versions() {
    let mut blank = validation_metadata();
    blank.title = Some(String::from("  \t"));
    assert_eq!(
        Recording::new(blank, validation_events()).unwrap_err(),
        ValidationError::EmptyTitle
    );

    let mut future = validation_metadata();
    future.schema_version = SchemaVersion::new(2);
    assert_eq!(
        Recording::new(future, validation_events()).unwrap_err(),
        ValidationError::UnsupportedSchemaVersion {
            expected: 1,
            found: 2,
        }
    );
}

#[test]
fn recording_finalization_appends_balancing_release_events() {
    let recording = Recording::new(
        session_metadata(),
        vec![
            event(0, 0, InputAction::KeyPressed { key: key_a() }),
            event(
                1,
                5_000,
                InputAction::MouseButtonPressed {
                    button: MouseButton::Left,
                },
            ),
        ],
    )
    .expect("sample recording should be valid");

    let (finalized_recording, report) =
        finalize_recording_session(recording).expect("recording finalization should succeed");

    assert_eq!(report.appended_release_events, 2);
    assert_eq!(finalized_recording.event_count(), 4);
    assert!(matches!(
        finalized_recording.events()[2].action,
        InputAction::MouseButtonReleased {
            button: MouseButton::Left
        }
    ));
    assert!(matches!(
        finalized_recording.events()[3].action,
        InputAction::KeyReleased { .. }
    ));
    assert_eq!(finalized_recording.events()[2].elapsed_time.as_micros(), 5_000);
    assert_eq!(finalized_recording.events()[3].elapsed_time.as_micros(), 5_000);
}

#[test]
fn finalizing_twice_appends_nothing_more() {
    let recording = Recording::new(
        session_metadata(),
        vec![event(0, 0, InputAction::KeyPressed { key: key_a() })],
    )
    .expect("sample recording should be valid");
    let (finalized, first) = finalize_recording_session(recording).expect("finalizes");
    let (again, second) = finalize_recording_session(finalized.duplicate()).expect("finalizes");
    assert_eq!(first.appended_release_events, 1);
    assert_eq!(second.appended_release_events, 0);
    assert_eq!(again, finalized);
}

#[test]
fn playback_preparation_skips_unmatched_releases_and_appends_terminal_cleanup() {
    let recording = Recording::new(
        session_metadata(),
        vec![
            event(0, 0, InputAction::KeyReleased { key: key_a() }),
            event(1, 1_000, InputAction::KeyPressed { key: key_a() }),
            event(
                2,
                2_000,
                InputAction::MouseButtonReleased {
                    button: MouseButton::Left,
                },
            ),
            event(
                3,
                3_000,
                InputAction::MouseButtonPressed {
                    button: MouseButton::Left,
                },
            ),
        ],
    )
    .expect("sample recording should be valid");

    let prepared_plan =
        prepare_playback_plan(&recording).expect("playback preparation should succeed");

    assert_eq!(recording.event_count(), 4);
    assert_eq!(prepared_plan.report().skipped_unmatched_release_events, 2);
    assert_eq!(prepared_plan.report().appended_release_events, 2);
    assert_eq!(prepared_plan.event_count(), 4);
    assert!(matches!(
        prepared_plan.recording().events()[0].action,
        InputAction::KeyPressed { .. }
    ));
    assert!(matches!(
        prepared_plan.recording().events()[1].action,
        InputAction::MouseButtonPressed {
            button: MouseButton::Left
        }
    ));
    assert!(matches!(
        prepared_plan.recording().events()[2].action,
        InputAction::MouseButtonReleased {
            button: MouseButton::Left
        }
    ));
    assert!(matches!(
        prepared_plan.recording().events()[3].action,
        InputAction::KeyReleased { .. }
    ));
}

#[test]
fn playback_preparation_preserves_repeated_key_presses() {
    let recording = Recording::new(
        session_metadata(),
        vec![
            event(0, 0, InputAction::KeyPressed { key: key_a() }),
            event(1, 500, InputAction::KeyPressed { key: key_a() }),
            event(2, 1_000, InputAction::KeyReleased { key: key_a() }),
        ],
    )
    .expect("sample recording should be valid");

    let prepared_plan =
        prepare_playback_plan(&recording).expect("playback preparation should succeed");

    assert_eq!(prepared_plan.report().skipped_unmatched_release_events, 0);
    assert_eq!(prepared_plan.report().appended_release_events, 0);
    assert_eq!(prepared_plan.event_count(), 3);
    assert!(matches!(
        prepared_plan.recording().events()[1].action,
        InputAction::KeyPressed { .. }
    ));
}

#[test]
fn preparing_a_prepared_plan_changes_nothing() {
    let recording = Recording::new(
        session_metadata(),
        vec![
            event(0, 0, InputAction::KeyReleased { key: key_a() }),
            event(1, 1_000, InputAction::KeyPressed { key: key_a() }),
        ],
    )
    .expect("sample recording should be valid");
    let plan = prepare_playback_plan(&recording).expect("prepares");
    let again = prepare_playback_plan(plan.recording()).expect("prepares");
    assert_eq!(again.report().skipped_unmatched_release_events, 0);
    assert_eq!(again.report().appended_release_events, 0);
    assert_eq!(again.recording(), plan.recording());
}

#[test]
fn recording_doctor_warns_about_empty_recordings() {
    let recording = Recording::new(metadata("Doctor sample", 1920, 1080), Vec::new())
        .expect("empty recordings are still valid doctor inputs");

    let report = diagnose_recording(&recording);

    assert_eq!(report.summary.warn_count, 1);
    assert_eq!(report.summary.overall_status(), DiagnosticStatus::Warn);
    assert_eq!(report.event_count, 0);
}

#[test]
fn recording_doctor_describes_a_non_empty_recording() {
    let recording = Recording::new(validation_metadata(), validation_events()).expect("valid");
    let report = diagnose_recording(&recording);
    assert_eq!(report.summary.pass_count, 3);
    assert!(!report.summary.has_failures());
    assert_eq!(report.checks[0].summary, "schema version 1 matches this build");
    assert_eq!(
        report.checks[1].summary,
        "validated canonical event ordering across 2 events"
    );
    assert_eq!(report.checks[2].summary, "recording spans 12000 us across 2 events");
}

#[test]
fn playback_doctor_reports_cleanup_when_preparation_changes_the_plan() {
    let recording = Recording::new(
        metadata("Doctor sample", 1920, 1080),
        vec![
            event(0, 0, InputAction::KeyReleased { key: key_a() }),
            event(
                1,
                1_000,
                InputAction::MouseButtonPressed {
                    button: MouseButton::Left,
                },
            ),
        ],
    )
    .expect("sample recording should be valid");

    let speed = SpeedMultiplier::from_bits(1.0f64.to_bits()).expect("speed should be valid");
    let report = diagnose_playback(&recording, speed, "1").expect("doctor playback report should build");

    assert_eq!(report.summary.warn_count, 1);
    assert_eq!(report.summary.overall_status(), DiagnosticStatus::Warn);
    assert_eq!(report.preparation_report.skipped_unmatched_release_events, 1);
    assert_eq!(report.preparation_report.appended_release_events, 1);
    assert_eq!(report.prepared_event_count, 2);
    assert_eq!(report.checks[0].summary, "playback speed is set to 1x");
    assert_eq!(
        report.checks[2].summary,
        "prepared playback skipped 1 unmatched releases and appended 1 terminal cleanup releases"
    );
}

#[test]
fn normalized_coordinate_rejects_values_outside_the_unit_interval() {
    for invalid in [-0.1f64, 1.1, f64::NAN, f64::INFINITY] {
        let result = NormalizedCoordinate::from_bits(invalid.to_bits(), "x");
        assert!(
            matches!(
                result,
                Err(ValidationError::InvalidNormalizedCoordinate { .. })
            ),
            "unexpected validation result for {invalid}"
        );
    }
    for valid in [0.0f64, -0.0, 0.5, 1.0] {
        assert!(NormalizedCoordinate::from_bits(valid.to_bits(), "x").is_ok());
    }
}

#[test]
fn speed_multiplier_rejects_zero_negative_and_non_finite_values() {
    for invalid in [0.0f64, -0.5, f64::NAN, f64::NEG_INFINITY] {
        let result = SpeedMultiplier::from_bits(invalid.to_bits());
        assert!(
            matches!(result, Err(ValidationError::InvalidSpeedMultiplier { .. })),
            "unexpected validation result for {invalid}"
        );
    }
    for valid in [0.1f64, 1.0, 2.5, 10.0] {
        let speed = SpeedMultiplier::from_bits(valid.to_bits()).expect("speed should be valid");
        assert_eq!(f64::from_bits(speed.to_bits()), valid);
    }
}

#[test]
fn event_offsets_convert_to_durations() {
    assert_eq!(
        EventOffset::from_micros(1_500).as_duration(),
        std::time::Duration::from_micros(1_500)
    );
    assert_eq!(
        EventOffset::from_micros(u64::MAX).as_duration(),
        std::time::Duration::from_micros(u64::MAX)
    );
}

#[test]
fn recording_metrics_peak_is_the_busiest_whole_second() {
    let times = [100_u64, 999_999, 1_000_000, 1_200_000, 1_999_999, 2_500_000, 5_000_000, 5_000_001];
    let mut events = Vec::new();
    for (index, micros) in times.iter().enumerate() {
        events.push(event(
            index as u64,
            *micros,
            InputAction::MouseWheelScrolled {
                axis: ScrollAxis::Vertical,
                delta: 120,
            },
        ));
    }
    let recording = Recording::new(validation_metadata(), events).expect("valid recording");
    let metrics = recording.metrics();

    let mut busiest = 0_usize;
    for second in 0..6_u64 {
        let count = times.iter().filter(|micros| **micros / 1_000_000 == second).count();
        busiest = busiest.max(count);
    }
    assert_eq!(busiest, 3);
    assert_eq!(metrics.peak_events_per_second, busiest);
    assert_eq!(metrics.total_events, 8);
    assert_eq!(metrics.duration_micros, 5_000_001);
}

#[test]
fn recording_metrics_of_an_empty_recording_are_zero() {
    let recording = Recording::new(validation_metadata(), Vec::new()).expect("valid recording");
    let metrics = recording.metrics();
    assert_eq!(metrics.peak_events_per_second, 0);
    assert_eq!(metrics.total_events, 0);
    assert_eq!(metrics.duration_micros, 0);
    assert_eq!(metrics.action_counts.total_events(), 0);
}

#[test]
fn captured_events_are_numbered_by_position() {
    let mut events = Vec::new();
    push_captured(&mut events, 5, InputAction::KeyPressed { key: key_a() });
    push_captured(&mut events, 5, InputAction::KeyReleased { key: key_a() });
    push_captured(
        &mut events,
        40,
        InputAction::MouseButtonPressed {
            button: MouseButton::Right,
        },
    );
    let sequences: Vec<u64> = events.iter().map(|event| event.sequence).collect();
    assert_eq!(sequences, vec![0, 1, 2]);
    let times: Vec<u64> = events.iter().map(|event| event.elapsed_time.as_micros()).collect();
    assert_eq!(times, vec![5, 5, 40]);
    let recording = Recording::new(session_metadata(), events).expect("captured events are in order");
    assert_eq!(recording.events().len(), 3);
}

#[test]
fn playback_progress_counts_sent_events_and_held_inputs() {
    let mut progress = PlaybackProgress::new();
    assert_eq!(progress.decide(false), PlaybackAction::Send);
    assert_eq!(progress.decide(true), PlaybackAction::Stop);
    assert_eq!(progress.dispatched_events(), 0);

    progress.note_sent(&InputAction::KeyPressed { key: key_a() });
    progress.note_sent(&InputAction::MouseButtonPressed {
        button: MouseButton::Left,
    });
    progress.note_sent(&InputAction::MouseButtonReleased {
        button: MouseButton::Left,
    });
    assert_eq!(progress.dispatched_events(), 3);

    let releases = progress.pressed().release_action_list();
    assert_eq!(releases, vec![InputAction::KeyReleased { key: key_a() }]);
}
