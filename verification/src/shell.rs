use vstd::prelude::*;

use crate::cli::RecordingStrategy;
use crate::diagnostics::{
    check_view, checks_view, playback_checks, prepared_appended, prepared_count, prepared_skipped,
    recording_checks, severity, status_count, DiagnosticCheck, DiagnosticStatus,
    EnvironmentDoctorReport,
};
use crate::editor::{
    clamped_selection, nudged_micros, resequenced, same_recording, toggled, EditingSession,
    EditingSessionView,
};
use crate::event::{ActionKind, EventOffset, InputAction, InputEvent, SpeedMultiplier};
use crate::hotkey::{
    binding_outcome, binding_text, canonical_modifier_order, key_display_name, parse_error_text,
    well_formed_modifiers, HotkeyBinding, HotkeyKey, HotkeyModifier,
};
use crate::library::{
    build_recording_title_items, display_title_for_recording, is_display_title, shown_title, RecordingLibraryEntry,
    RecordingLibraryState,
};
use crate::presentation::{
    action_label, build_event_duration_items, build_event_filter_counts, build_event_index_items,
    build_event_parameter_items, build_event_type_items, build_visible_event_rows,
    elapsed_clock_text, format_diagnostic_status, format_event_action_label, group_count,
    hotkey_key_index, hotkey_key_option, issue_lines, loop_input_count, padded_decimal_string,
    padded_decimal_text, shown_positions, signed_decimal_string, signed_decimal_text, status_name,
    table_parameter_label, table_placeholder, table_type_label, EventListFilter,
};
use crate::recording::{duration_micros, peak_same_second_run, Recording, RecordingMetadataView};
use crate::text::{
    chars_of, decimal_string, decimal_text, join_texts, joined, push_str, texts_view, trim,
    trimmed_bounds,
};

verus! {

/// The page the desktop shell shows.
#[derive(Debug, Clone, Copy, PartialEq, Eq, Structural)]
pub enum ActiveView {
    Editor,
    Diagnostics,
    Settings,
}

/// The settings the shell starts actions with.
#[derive(Debug)]
pub struct AppConfiguration {
    pub recording_strategy: RecordingStrategy,
    pub stop_action_hotkey: HotkeyBinding,
}

impl Default for AppConfiguration {
    /// Raw Input recording, stopped with Ctrl+Shift+F12.
    fn default() -> (configuration: Self)
        ensures
            configuration.recording_strategy == RecordingStrategy::RawInput,
            configuration.stop_action_hotkey@ == (
                seq![HotkeyModifier::Control, HotkeyModifier::Shift],
                HotkeyKey::F12,
            ),
    {
        let modifiers = vec![HotkeyModifier::Control, HotkeyModifier::Shift];
        proof {
            lemma_distinct_modifiers_build(modifiers@, HotkeyKey::F12);
            assert(canonical_modifier_order(modifiers@) =~= modifiers@);
        }
        let stop_action_hotkey = match HotkeyBinding::new(modifiers, HotkeyKey::F12) {
            Ok(binding) => binding,
            Err(_) => {
                return vstd::pervasive::unreached();
            },
        };
        AppConfiguration { recording_strategy: RecordingStrategy::RawInput, stop_action_hotkey }
    }
}

/// Modifiers that do not repeat build a binding.
proof fn lemma_distinct_modifiers_build(modifiers: Seq<HotkeyModifier>, key: HotkeyKey)
    requires
        modifiers.len() > 0,
        forall|i: int, j: int| 0 <= i < j < modifiers.len() ==> modifiers[i] != modifiers[j],
    ensures
        binding_outcome(modifiers, key) == Ok::<(Seq<HotkeyModifier>, HotkeyKey), crate::hotkey::HotkeyParseErrorView>(
            (canonical_modifier_order(modifiers), key),
        ),
{
    assert forall|index: int| !crate::hotkey::is_first_repeat(modifiers, index) by {
        if crate::hotkey::is_first_repeat(modifiers, index) {
            let earlier = choose|earlier: int|
                0 <= earlier < index && modifiers[earlier] == modifiers[index];
            assert(modifiers[earlier] == modifiers[index]);
        }
    }
}

/// Modifiers in canonical order never repeat.
proof fn lemma_canonical_modifiers_distinct(modifiers: Seq<HotkeyModifier>)
    ensures
        forall|i: int, j: int|
            0 <= i < j < canonical_modifier_order(modifiers).len() ==> canonical_modifier_order(
                modifiers,
            )[i] != canonical_modifier_order(modifiers)[j],
{
    let c = if modifiers.contains(HotkeyModifier::Control) {
        seq![HotkeyModifier::Control]
    } else {
        Seq::empty()
    };
    let a = if modifiers.contains(HotkeyModifier::Alt) {
        seq![HotkeyModifier::Alt]
    } else {
        Seq::empty()
    };
    let s = if modifiers.contains(HotkeyModifier::Shift) {
        seq![HotkeyModifier::Shift]
    } else {
        Seq::empty()
    };
    let w = if modifiers.contains(HotkeyModifier::Win) {
        seq![HotkeyModifier::Win]
    } else {
        Seq::empty()
    };
    let sorted = canonical_modifier_order(modifiers);
    assert(sorted == c + a + s + w);
    assert forall|i: int, j: int| 0 <= i < j < sorted.len() implies sorted[i] != sorted[j] by {
        let ca = c + a;
        let cas = ca + s;
        assert(sorted == cas + w);
        assert forall|k: int| 0 <= k < sorted.len() implies crate::hotkey::modifier_rank(sorted[k])
            >= k && (k >= c.len() ==> crate::hotkey::modifier_rank(sorted[k]) >= 1) && (k >= ca.len()
            ==> crate::hotkey::modifier_rank(sorted[k]) >= 2) && (k >= cas.len()
            ==> crate::hotkey::modifier_rank(sorted[k]) >= 3) && (k < c.len()
            ==> crate::hotkey::modifier_rank(sorted[k]) == 0) && (k < ca.len() && k >= c.len()
            ==> crate::hotkey::modifier_rank(sorted[k]) == 1) && (k < cas.len() && k >= ca.len()
            ==> crate::hotkey::modifier_rank(sorted[k]) == 2) by {
            if k < c.len() {
                assert(sorted[k] == c[k]);
            } else if k < ca.len() {
                assert(sorted[k] == a[k - c.len()]);
            } else if k < cas.len() {
                assert(sorted[k] == s[k - ca.len()]);
            } else {
                assert(sorted[k] == w[k - cas.len()]);
            }
        }
        assert(crate::hotkey::modifier_rank(sorted[i]) != crate::hotkey::modifier_rank(sorted[j]));
    }
}

/// The modifiers of a well-formed binding build a binding with any key.
proof fn lemma_well_formed_modifiers_build(modifiers: Seq<HotkeyModifier>, key: HotkeyKey)
    requires
        well_formed_modifiers(modifiers),
    ensures
        binding_outcome(modifiers, key) == Ok::<(Seq<HotkeyModifier>, HotkeyKey), crate::hotkey::HotkeyParseErrorView>(
            (modifiers, key),
        ),
{
    lemma_canonical_modifiers_distinct(modifiers);
    lemma_distinct_modifiers_build(modifiers, key);
}

/// What the shell last did with a recording or playback action.
#[derive(Debug)]
pub enum ActionExecutionState {
    Idle,
    Notice(String),
    RecordingRunning { recording_title: String, strategy: RecordingStrategy },
    RecordingCompleted {
        recording_title: String,
        output_path: String,
        event_count: usize,
        duration_micros: u64,
    },
    RecordingFailed { recording_title: String, reason: String },
    PlaybackRunning { recording_title: String, speed: SpeedMultiplier },
    PlaybackCompleted {
        recording_title: String,
        speed: SpeedMultiplier,
        dispatched_events: usize,
        interrupted: bool,
        elapsed_millis_bits: u64,
    },
    PlaybackFailed { recording_title: String, speed: SpeedMultiplier, reason: String },
}

/// The session view of an optional editing session.
pub open spec fn session_view(session: Option<EditingSession>) -> Option<EditingSessionView> {
    match session {
        Some(session) => Some(session@),
        None => None,
    }
}

/// The positions, in the working copy, of the events the list shows.
pub open spec fn visible_positions(session: Option<EditingSessionView>, filter: EventListFilter) -> Seq<
    usize,
> {
    match session {
        Some(session) => shown_positions(session.working.1, filter, session.working.1.len() as int),
        None => Seq::empty(),
    }
}

/// The selection after the event list changed: none when no event is shown,
/// the current one when it is shown, otherwise the first shown event.
pub open spec fn synced_selection(positions: Seq<usize>, selected: Option<usize>) -> Option<usize> {
    if positions.len() == 0 {
        None
    } else if selected matches Some(index) && positions.contains(index) {
        selected
    } else {
        Some(positions[0])
    }
}

/// The session with its selection moved onto the events the filter shows.
pub open spec fn with_synced_selection(session: Option<EditingSessionView>, filter: EventListFilter) -> Option<
    EditingSessionView,
> {
    match session {
        Some(view) => Some(
            EditingSessionView {
                selected: synced_selection(visible_positions(session, filter), view.selected),
                ..view
            },
        ),
        None => None,
    }
}

/// A session freshly opened on a library entry: both copies are the entry's
/// recording and the first event is selected.
pub open spec fn fresh_session(entry: RecordingLibraryEntry) -> EditingSessionView {
    EditingSessionView {
        source_path: entry.path@,
        original: entry.recording@,
        working: entry.recording@,
        selected: if entry.recording@.1.len() > 0 {
            Some(0usize)
        } else {
            None
        },
    }
}

/// The session the editor opens on the selected entry of a library, if any.
pub open spec fn session_for_library(library: RecordingLibraryState, filter: EventListFilter) -> Option<
    EditingSessionView,
> {
    with_synced_selection(
        match library.selected_entry() {
            Some(entry) => Some(fresh_session(entry)),
            None => None,
        },
        filter,
    )
}

/// The loop count, clamped to the supported range.
pub open spec fn clamped_loop_count(count: u16) -> u16 {
    if count < crate::presentation::MIN_PLAYBACK_LOOP_COUNT {
        crate::presentation::MIN_PLAYBACK_LOOP_COUNT
    } else if count > crate::presentation::MAX_PLAYBACK_LOOP_COUNT {
        crate::presentation::MAX_PLAYBACK_LOOP_COUNT
    } else {
        count
    }
}

proof fn lemma_shown_positions_in_range(events: Seq<InputEvent>, filter: EventListFilter, count: int)
    requires
        0 <= count <= events.len(),
    ensures
        forall|k: int|
            0 <= k < shown_positions(events, filter, count).len() ==> shown_positions(
                events,
                filter,
                count,
            )[k] < count,
    decreases count,
{
    if count > 0 {
        lemma_shown_positions_in_range(events, filter, count - 1);
        let before = shown_positions(events, filter, count - 1);
        let after = shown_positions(events, filter, count);
        assert forall|k: int| 0 <= k < after.len() implies after[k] < count by {
            if k < before.len() {
                assert(after[k] == before[k]);
            }
        }
    }
}

fn contains_position(positions: &Vec<usize>, index: usize) -> (found: bool)
    ensures
        found == positions@.contains(index),
{
    let mut position: usize = 0;
    while position < positions.len()
        invariant
            position <= positions.len(),
            forall|k: int| 0 <= k < position ==> positions@[k] != index,
        decreases positions.len() - position,
    {
        if positions[position] == index {
            assert(positions@[position as int] == index);
            return true;
        }
        position += 1;
    }
    false
}

/// The editor holds changes that are not saved.
pub open spec fn has_unsaved_changes(editor: Option<EditingSessionView>) -> bool {
    editor matches Some(session) && !same_recording(session.original, session.working)
}

/// The loop count the loop count box settles on: the count its text selects,
/// or the selected count when the text does not read as one.
pub open spec fn committed_loop_count(input: Seq<char>, selected: u16) -> u16 {
    match loop_input_count(input) {
        Some(count) => count,
        None => clamped_loop_count(selected),
    }
}

proof fn lemma_loop_input_in_range(input: Seq<char>)
    ensures
        loop_input_count(input) matches Some(count) ==> clamped_loop_count(count) == count,
{
}

/// The modifiers of `modifiers` other than `removed`, in order.
pub open spec fn modifiers_without(modifiers: Seq<HotkeyModifier>, removed: HotkeyModifier) -> Seq<
    HotkeyModifier,
>
    decreases modifiers.len(),
{
    if modifiers.len() == 0 {
        modifiers
    } else {
        let rest = modifiers_without(modifiers.drop_last(), removed);
        if modifiers.last() == removed {
            rest
        } else {
            rest.push(modifiers.last())
        }
    }
}

/// The modifiers the stop hotkey is rebuilt with when `modifier` is switched on
/// or off: added at the end when missing, or removed.
pub open spec fn requested_modifiers(
    current: Seq<HotkeyModifier>,
    modifier: HotkeyModifier,
    enabled: bool,
) -> Seq<HotkeyModifier> {
    if enabled {
        if current.contains(modifier) {
            current
        } else {
            current.push(modifier)
        }
    } else {
        modifiers_without(current, modifier)
    }
}

/// The title of the recording numbered `index`, such as `Capture 001`.
pub open spec fn capture_title(index: nat) -> Seq<char> {
    "Capture "@ + padded_decimal_text(index, 3)
}

/// The file name of the recording numbered `index`, such as `capture-001.json`.
pub open spec fn capture_file_name(index: nat) -> Seq<char> {
    "capture-"@ + padded_decimal_text(index, 3) + ".json"@
}

/// Where a new recording goes: its title and the name of its file in the
/// sessions directory.
#[derive(Debug, Clone, PartialEq, Eq)]
pub struct CaptureDestination {
    pub recording_title: String,
    pub file_name: String,
}

/// The destination of the recording numbered `index`.
pub fn capture_destination(index: u64) -> (destination: CaptureDestination)
    ensures
        destination.recording_title@ == capture_title(index as nat),
        destination.file_name@ == capture_file_name(index as nat),
{
    let digits = padded_decimal_string(index, 3);
    let mut recording_title = String::new();
    push_str(&mut recording_title, "Capture ");
    push_str(&mut recording_title, digits.as_str());
    let mut file_name = String::new();
    push_str(&mut file_name, "capture-");
    push_str(&mut file_name, digits.as_str());
    push_str(&mut file_name, ".json");
    CaptureDestination { recording_title, file_name }
}

/// A recording to start: the file it goes to, its title, how to capture it and
/// the hotkey that stops it.
#[derive(Debug)]
pub struct RecordingRequest {
    pub output_file_name: String,
    pub recording_title: String,
    pub strategy: RecordingStrategy,
    pub stop_hotkey: Option<HotkeyBinding>,
}

/// A playback to start: the recording, its title, how often and how fast to
/// play it, and the hotkey that stops it.
#[derive(Debug)]
pub struct PlaybackRequest {
    pub recording: Recording,
    pub recording_title: String,
    pub loop_count: u16,
    pub speed: SpeedMultiplier,
    pub stop_hotkey: Option<HotkeyBinding>,
}

/// `result` failed with the message `text`.
pub open spec fn error_is<T>(result: Result<T, String>, text: Seq<char>) -> bool {
    result matches Err(message) && message@ == text
}

/// The session after deleting the event at `index`.
pub open spec fn after_delete(session: EditingSessionView, index: int) -> EditingSessionView {
    EditingSessionView {
        working: (session.working.0, resequenced(session.working.1.remove(index))),
        selected: clamped_selection(Some(index as usize), (session.working.1.len() - 1) as nat),
        ..session
    }
}

/// The session after copying the event at `index` right after it.
pub open spec fn after_duplicate(session: EditingSessionView, index: int) -> EditingSessionView {
    EditingSessionView {
        working: (
            session.working.0,
            resequenced(session.working.1.insert(index + 1, session.working.1[index])),
        ),
        selected: Some((index + 1) as usize),
        ..session
    }
}

/// The session after the event at `index` took the action `action`.
pub open spec fn after_toggle(session: EditingSessionView, index: int, action: InputAction) -> EditingSessionView {
    EditingSessionView {
        working: (
            session.working.0,
            resequenced(session.working.1.update(index, InputEvent { action, ..session.working.1[index] })),
        ),
        selected: Some(index as usize),
        ..session
    }
}

/// The session after the event at `index` moved in time by `delta` microseconds.
pub open spec fn after_nudge(session: EditingSessionView, index: int, delta: i64) -> EditingSessionView {
    EditingSessionView {
        working: (
            session.working.0,
            resequenced(
                session.working.1.update(
                    index,
                    InputEvent {
                        elapsed_time: EventOffset::spec_from_micros(
                            nudged_micros(session.working.1, index, delta),
                        ),
                        ..session.working.1[index]
                    },
                ),
            ),
        ),
        selected: Some(index as usize),
        ..session
    }
}

/// The session after dropping every edit.
pub open spec fn after_revert(session: EditingSessionView) -> EditingSessionView {
    EditingSessionView {
        working: session.original,
        selected: clamped_selection(session.selected, session.original.1.len()),
        ..session
    }
}

/// The bit pattern of 1.0, the playback speed the shell starts with.
pub const DEFAULT_PLAYBACK_SPEED_BITS: u64 = 0x3FF0_0000_0000_0000;

/// The event list filter the shell starts with: every kind but pointer moves.
pub open spec fn default_event_filter() -> EventListFilter {
    EventListFilter {
        show_key_events: true,
        show_mouse_button_events: true,
        show_mouse_wheel_events: true,
        show_pointer_move_events: false,
    }
}

/// The working copy to write back to the file it came from.
#[derive(Debug)]
pub struct SaveRequest {
    pub path: String,
    pub recording: Recording,
}

/// The start of the diagnostics summary: the overall status and the backends
/// in use.
pub open spec fn diagnostics_summary_head(report: EnvironmentDoctorReport) -> Seq<char> {
    "Status "@ + status_name(severity(report.summary)) + " · recording "@ + joined(
        texts_view(report.recording_backends@),
        ", "@,
    ) + " · playback "@ + report.playback_backend@ + " · hotkey "@ + report.hotkey_backend@
}

/// Summarizes the environment report and, when a session is loaded, names it.
pub fn build_diagnostics_summary(
    report: &EnvironmentDoctorReport,
    editing_session: Option<&EditingSession>,
) -> (text: String)
    ensures
        editing_session is None ==> text@ == diagnostics_summary_head(*report),
        editing_session matches Some(session) ==> (diagnostics_summary_head(*report) + " · session "@).is_prefix_of(text@),
        editing_session matches Some(session) ==> (shown_title(session@.working.0) matches Some(own)
            ==> text@ == diagnostics_summary_head(*report) + " · session "@ + own),
        editing_session matches Some(session) ==> exists|title: Seq<char>|
            #[trigger] is_display_title(title, session@.working.0) && text@
                == diagnostics_summary_head(*report) + " · session "@ + title,
{
    let mut text = String::new();
    push_str(&mut text, "Status ");
    push_str(&mut text, format_diagnostic_status(report.summary.overall_status()));
    push_str(&mut text, " · recording ");
    let backends = join_texts(report.recording_backends.as_slice(), ", ");
    push_str(&mut text, backends.as_str());
    push_str(&mut text, " · playback ");
    push_str(&mut text, report.playback_backend.as_str());
    push_str(&mut text, " · hotkey ");
    push_str(&mut text, report.hotkey_backend.as_str());
    assert(text@ =~= diagnostics_summary_head(*report));
    if let Some(session) = editing_session {
        let ghost head = text@;
        push_str(&mut text, " · session ");
        let title = session.display_title();
        push_str(&mut text, title.as_str());
        assert(text@ =~= head + " · session "@ + title@);
        assert((head + " · session "@).is_prefix_of(text@)) by {
            assert(text@.subrange(0, (head + " · session "@).len() as int) =~= head + " · session "@);
        }
    }
    text
}

/// The state of the shell's window that follows from the model alone: which
/// page shows, what the lists and labels read, and which controls are enabled.
#[derive(Debug)]
pub struct DesktopShellState {
    pub show_editor_view: bool,
    pub show_diagnostics_view: bool,
    pub show_settings_view: bool,
    pub editor_tab_selected: bool,
    pub diagnostics_tab_selected: bool,
    pub settings_tab_selected: bool,
    pub session_directory: String,
    pub has_recordings: bool,
    pub recording_titles: Vec<String>,
    pub selected_recording_index: i32,
    pub selected_recording_title: String,
    pub selected_recording_details: String,
    pub playback_summary: String,
    pub playback_checks: String,
    pub playback_loop_input_text: String,
    pub event_index_labels: Vec<String>,
    pub event_type_labels: Vec<String>,
    pub event_parameter_labels: Vec<String>,
    pub event_duration_labels: Vec<String>,
    pub filter_key_events_selected: bool,
    pub filter_mouse_button_events_selected: bool,
    pub filter_mouse_wheel_events_selected: bool,
    pub filter_pointer_move_events_selected: bool,
    pub filter_key_event_count_label: String,
    pub filter_mouse_button_event_count_label: String,
    pub filter_mouse_wheel_event_count_label: String,
    pub filter_pointer_move_event_count_label: String,
    pub stop_hotkey_summary: String,
    pub stop_hotkey_control_selected: bool,
    pub stop_hotkey_alt_selected: bool,
    pub stop_hotkey_shift_selected: bool,
    pub stop_hotkey_win_selected: bool,
    pub stop_hotkey_key_index: i32,
    pub stop_hotkey_key_label: String,
    pub can_start_recording: bool,
    pub can_play_selected_recording: bool,
    pub can_stop_active_action: bool,
    pub can_save_editor_changes: bool,
    pub can_revert_editor_changes: bool,
    pub can_delete_selected_recording: bool,
    pub recording_strategy_raw_selected: bool,
    pub recording_strategy_low_level_selected: bool,
    pub diagnostics_summary: String,
    pub diagnostics_checks: String,
}

/// The number of events of the working copy in one filter group; zero without
/// a session.
pub open spec fn editor_group_count(
    editor: Option<EditingSessionView>,
    first: ActionKind,
    second: ActionKind,
) -> nat {
    match editor {
        Some(session) => group_count(session.working.1, first, second, session.working.1.len() as int),
        None => 0,
    }
}

fn contains_hotkey_modifier(modifiers: &[HotkeyModifier], modifier: HotkeyModifier) -> (found: bool)
    ensures
        found == modifiers@.contains(modifier),
{
    let mut index: usize = 0;
    while index < modifiers.len()
        invariant
            index <= modifiers.len(),
            forall|i: int| 0 <= i < index ==> modifiers@[i] != modifier,
        decreases modifiers.len() - index,
    {
        if modifiers[index] == modifier {
            assert(modifiers@[index as int] == modifier);
            return true;
        }
        index += 1;
    }
    false
}

/// One column of the event table for the editor's session: `filler` of the
/// placeholder when there are no rows to show, otherwise `cell` of each shown
/// event and its position.
pub open spec fn event_column(
    editor: Option<EditingSessionView>,
    filter: EventListFilter,
    filler: spec_fn((Seq<char>, Seq<char>)) -> Seq<char>,
    cell: spec_fn(usize, InputEvent) -> Seq<char>,
) -> Seq<Seq<char>> {
    let events = match editor {
        Some(session) => Some(session.working.1),
        None => None,
    };
    let positions = visible_positions(editor, filter);
    match table_placeholder(events, positions.len()) {
        Some(placeholder) => seq![filler(placeholder)],
        None => Seq::new(
            positions.len(),
            |k: int| cell(positions[k], events->0[positions[k] as int]),
        ),
    }
}

proof fn lemma_digit_char(digit: nat)
    requires
        digit < 10,
    ensures
        crate::presentation::is_digit(crate::text::digit_char(digit)),
        (crate::text::digit_char(digit) as u32) - ('0' as u32) == digit,
        !crate::text::is_unicode_whitespace(crate::text::digit_char(digit)),
        crate::text::digit_char(digit) != '-',
        crate::text::digit_char(digit) != '+',
{
    if digit == 0 {
        assert(crate::text::digit_char(0) == '0');
    } else if digit == 1 {
        assert(crate::text::digit_char(1) == '1');
    } else if digit == 2 {
        assert(crate::text::digit_char(2) == '2');
    } else if digit == 3 {
        assert(crate::text::digit_char(3) == '3');
    } else if digit == 4 {
        assert(crate::text::digit_char(4) == '4');
    } else if digit == 5 {
        assert(crate::text::digit_char(5) == '5');
    } else if digit == 6 {
        assert(crate::text::digit_char(6) == '6');
    } else if digit == 7 {
        assert(crate::text::digit_char(7) == '7');
    } else if digit == 8 {
        assert(crate::text::digit_char(8) == '8');
    } else {
        assert(crate::text::digit_char(9) == '9');
    }
}

/// The decimal text of a number is a non-empty run of digits whose value is
/// the number.
pub proof fn lemma_decimal_text_reads_back(value: nat)
    ensures
        decimal_text(value).len() > 0,
        crate::presentation::all_digits(decimal_text(value)),
        crate::presentation::digits_value(decimal_text(value)) == value,
        decimal_text(value).len() <= 1 || value >= 10,
    decreases value,
{
    if value < 10 {
        lemma_digit_char(value);
        let text = decimal_text(value);
        assert(text.drop_last() =~= Seq::<char>::empty());
        assert(text.last() == crate::text::digit_char(value));
        assert(crate::presentation::digits_value(text.drop_last()) == 0);
        assert(crate::presentation::digits_value(text) == ((text.last() as u32) - ('0' as u32)) as nat);
    } else {
        lemma_decimal_text_reads_back(value / 10);
        lemma_digit_char(value % 10);
        let text = decimal_text(value);
        assert(text.drop_last() =~= decimal_text(value / 10));
        assert(text.last() == crate::text::digit_char(value % 10));
        assert(crate::presentation::digits_value(text) == crate::presentation::digits_value(
            decimal_text(value / 10),
        ) * 10 + ((text.last() as u32) - ('0' as u32)) as nat);
        assert((value / 10) * 10 + value % 10 == value);
        assert forall|i: int| 0 <= i < text.len() implies crate::presentation::is_digit(#[trigger] text[i]) by {
            if i < text.len() - 1 {
                assert(text[i] == decimal_text(value / 10)[i]);
            }
        }
    }
}

/// The count the loop count box shows reads back as that count: the text of
/// every supported count selects the count itself.
pub proof fn lemma_loop_count_text_reads_back(count: u16)
    requires
        crate::presentation::MIN_PLAYBACK_LOOP_COUNT <= count <= crate::presentation::MAX_PLAYBACK_LOOP_COUNT,
    ensures
        loop_input_count(decimal_text(count as nat)) == Some(count),
{
    let text = decimal_text(count as nat);
    lemma_decimal_text_reads_back(count as nat);
    assert(crate::presentation::is_digit(text[0]));
    assert(crate::presentation::is_digit(text.last()));
    assert(!crate::text::is_unicode_whitespace(text[0]));
    assert(!crate::text::is_unicode_whitespace(text.last()));
    crate::text::lemma_trim_unpadded(text);
    assert(crate::presentation::unsigned_part(text) == text);
}

/// Settling the loop count box twice is the same as settling it once.
pub proof fn lemma_loop_commit_is_idempotent(input: Seq<char>, selected: u16)
    ensures
        committed_loop_count(
            decimal_text(committed_loop_count(input, selected) as nat),
            committed_loop_count(input, selected),
        ) == committed_loop_count(input, selected),
{
    let count = committed_loop_count(input, selected);
    assert(crate::presentation::MIN_PLAYBACK_LOOP_COUNT <= count <= crate::presentation::MAX_PLAYBACK_LOOP_COUNT);
    lemma_loop_count_text_reads_back(count);
}

/// After a revert the editor holds no unsaved changes, whatever the edits
/// before it.
pub proof fn lemma_revert_clears_unsaved_changes(session: EditingSessionView, filter: EventListFilter)
    ensures
        !has_unsaved_changes(with_synced_selection(Some(after_revert(session)), filter)),
{
    crate::editor::lemma_same_recording_reflexive(session.original);
}

/// After the selection follows the filter, it names an event the list shows,
/// and it is empty only when the list shows no event.
pub proof fn lemma_synced_selection_is_shown(session: EditingSessionView, filter: EventListFilter)
    ensures
        with_synced_selection(Some(session), filter)->0.selected matches Some(index)
            ==> visible_positions(Some(session), filter).contains(index),
        with_synced_selection(Some(session), filter)->0.selected is None
            ==> visible_positions(Some(session), filter).len() == 0,
{
    let positions = visible_positions(Some(session), filter);
    if positions.len() > 0 {
        assert(positions[0] == positions[0]);
        assert(positions.contains(positions[0]));
    }
}

/// Letting the selection follow the filter a second time changes nothing.
pub proof fn lemma_selection_sync_is_idempotent(session: Option<EditingSessionView>, filter: EventListFilter)
    ensures
        with_synced_selection(with_synced_selection(session, filter), filter) == with_synced_selection(
            session,
            filter,
        ),
{
    if let Some(view) = session {
        lemma_synced_selection_is_shown(view, filter);
        let synced = with_synced_selection(session, filter)->0;
        assert(visible_positions(Some(synced), filter) == visible_positions(session, filter));
    }
}

/// The line that reports a check given by its content.
pub open spec fn view_issue_line(check: (Seq<char>, DiagnosticStatus, Seq<char>)) -> Seq<char> {
    "["@ + status_name(check.1) + "] "@ + check.0 + ": "@ + check.2
}

/// The lines of the checks, given by their content, that did not pass.
pub open spec fn view_issue_lines(checks: Seq<(Seq<char>, DiagnosticStatus, Seq<char>)>) -> Seq<Seq<char>>
    decreases checks.len(),
{
    if checks.len() == 0 {
        Seq::empty()
    } else if checks.last().1 != DiagnosticStatus::Pass {
        view_issue_lines(checks.drop_last()).push(view_issue_line(checks.last()))
    } else {
        view_issue_lines(checks.drop_last())
    }
}

/// The number of checks, given by their content, with a status.
pub open spec fn view_status_count(
    checks: Seq<(Seq<char>, DiagnosticStatus, Seq<char>)>,
    status: DiagnosticStatus,
) -> nat
    decreases checks.len(),
{
    if checks.len() == 0 {
        0
    } else {
        view_status_count(checks.drop_last(), status) + if checks.last().1 == status {
            1nat
        } else {
            0nat
        }
    }
}

proof fn lemma_checks_by_content(checks: Seq<DiagnosticCheck>)
    ensures
        issue_lines(checks) == view_issue_lines(checks_view(checks)),
        forall|status: DiagnosticStatus|
            status_count(checks, status) == view_status_count(checks_view(checks), status),
    decreases checks.len(),
{
    if checks.len() > 0 {
        lemma_checks_by_content(checks.drop_last());
        assert(checks_view(checks).drop_last() =~= checks_view(checks.drop_last()));
        assert(checks_view(checks).last() == check_view(checks.last()));
        assert forall|status: DiagnosticStatus|
            status_count(checks, status) == view_status_count(checks_view(checks), status) by {
            assert(status_count(checks, status) == status_count(checks.drop_last(), status) + if checks.last().status == status {
                1nat
            } else {
                0nat
            });
        }
    } else {
        assert(checks_view(checks) =~= Seq::empty());
    }
}

/// The details of the recording in the editor: its path, size, duration and
/// state, its display, and the counts of its recording checks.
pub open spec fn recording_details_text(
    path: Seq<char>,
    recording: (RecordingMetadataView, Seq<InputEvent>),
    duration_text: Seq<char>,
    dirty: bool,
) -> Seq<char> {
    let checks = recording_checks(
        recording.0.schema_version.number(),
        recording.1.len(),
        duration_micros(recording.1),
    );
    let display = recording.0.display;
    path + "\n"@ + decimal_text(recording.1.len()) + " events · "@ + duration_text + " · "@ + (
    if dirty {
        "unsaved changes"@
    } else {
        "saved session"@
    }) + "\nDisplay "@ + decimal_text(display.virtual_size.width as nat) + "x"@ + decimal_text(
        display.virtual_size.height as nat,
    ) + " @ "@ + signed_decimal_text(display.virtual_origin.x as int) + ","@ + signed_decimal_text(
        display.virtual_origin.y as int,
    ) + "\nChecks "@ + decimal_text(view_status_count(checks, DiagnosticStatus::Pass)) + " pass · "@
        + decimal_text(view_status_count(checks, DiagnosticStatus::Warn)) + " warn · "@ + decimal_text(
        view_status_count(checks, DiagnosticStatus::Fail),
    ) + " fail"@
}

/// The playback readiness line of a recording played at normal speed.
pub open spec fn playback_readiness_text(events: Seq<InputEvent>) -> Seq<char> {
    "Ready at 1.0x · "@ + decimal_text(events.len()) + " events · "@ + decimal_text(
        peak_same_second_run(events, events.len() as int),
    ) + " peak/s · cleanup "@ + decimal_text(prepared_skipped(events)) + " skipped / "@ + decimal_text(
        prepared_appended(events),
    ) + " appended"@
}

/// The playback checks of a recording played at normal speed, one line per
/// check that did not pass.
pub open spec fn playback_issues_text(events: Seq<InputEvent>) -> Seq<char> {
    let lines = view_issue_lines(
        playback_checks(
            "1"@,
            events.len(),
            duration_micros(events),
            prepared_skipped(events),
            prepared_appended(events),
            prepared_count(events),
        ),
    );
    if lines.len() == 0 {
        "No playback warnings or failures."@
    } else {
        joined(lines, "\n"@)
    }
}

/// The texts of the selected recording's panel: placeholders without a
/// session; otherwise the recording's title, its details, its playback
/// readiness and its playback checks.
pub open spec fn selected_sections_hold(
    editor: Option<EditingSessionView>,
    duration_text: Seq<char>,
    title: Seq<char>,
    details: Seq<char>,
    readiness: Seq<char>,
    issues: Seq<char>,
) -> bool {
    match editor {
        None => {
            &&& title == "No session selected"@
            &&& details == "Choose a session from the library to edit it here."@
            &&& readiness == "Playback readiness appears here after you select a schema v"@ + decimal_text(
                crate::event::CURRENT_SCHEMA_VERSION_NUMBER as nat,
            ) + " recording."@
            &&& issues == "No playback warnings or failures to show."@
        },
        Some(session) => {
            &&& (shown_title(session.working.0) matches Some(own) ==> title == own)
            &&& is_display_title(title, session.working.0)
            &&& details == recording_details_text(
                session.source_path,
                session.working,
                duration_text,
                !same_recording(session.original, session.working),
            )
            &&& readiness == playback_readiness_text(session.working.1)
            &&& issues == playback_issues_text(session.working.1)
        },
    }
}

/// The texts of the selected recording's panel: its title, its details, its
/// playback readiness and its playback checks. `duration_text` is the
/// duration of the editor's working copy as the window writes it.
pub fn build_selected_recording_sections(editing_session: Option<&EditingSession>, duration_text: &str) -> (sections: (
    String,
    String,
    String,
    String,
))
    ensures
        selected_sections_hold(
            match editing_session {
                Some(session) => Some(session@),
                None => None,
            },
            duration_text@,
            sections.0@,
            sections.1@,
            sections.2@,
            sections.3@,
        ),
{
    let session = match editing_session {
        None => {
            let mut readiness = String::new();
            push_str(&mut readiness, "Playback readiness appears here after you select a schema v");
            let version = decimal_string(crate::event::CURRENT_SCHEMA_VERSION_NUMBER as u64);
            push_str(&mut readiness, version.as_str());
            push_str(&mut readiness, " recording.");
            return (
                "No session selected".to_owned(),
                "Choose a session from the library to edit it here.".to_owned(),
                readiness,
                "No playback warnings or failures to show.".to_owned(),
            );
        },
        Some(session) => session,
    };
    let recording = session.working_recording();
    let metrics = recording.metrics();
    let recording_doctor = crate::diagnostics::diagnose_recording(recording);
    proof {
        lemma_checks_by_content(recording_doctor.checks@);
    }
    let title = session.display_title();
    let metadata = recording.metadata();
    let mut details = String::new();
    push_str(&mut details, session.source_path().as_str());
    push_str(&mut details, "\n");
    push_str(&mut details, decimal_string(recording.event_count() as u64).as_str());
    push_str(&mut details, " events · ");
    push_str(&mut details, duration_text);
    push_str(&mut details, " · ");
    if session.is_dirty() {
        push_str(&mut details, "unsaved changes");
    } else {
        push_str(&mut details, "saved session");
    }
    push_str(&mut details, "\nDisplay ");
    push_str(&mut details, decimal_string(metadata.display.virtual_size.width as u64).as_str());
    push_str(&mut details, "x");
    push_str(&mut details, decimal_string(metadata.display.virtual_size.height as u64).as_str());
    push_str(&mut details, " @ ");
    push_str(&mut details, signed_decimal_string(metadata.display.virtual_origin.x as i64).as_str());
    push_str(&mut details, ",");
    push_str(&mut details, signed_decimal_string(metadata.display.virtual_origin.y as i64).as_str());
    push_str(&mut details, "\nChecks ");
    push_str(&mut details, decimal_string(recording_doctor.summary.pass_count as u64).as_str());
    push_str(&mut details, " pass · ");
    push_str(&mut details, decimal_string(recording_doctor.summary.warn_count as u64).as_str());
    push_str(&mut details, " warn · ");
    push_str(&mut details, decimal_string(recording_doctor.summary.fail_count as u64).as_str());
    push_str(&mut details, " fail");
    let normal_speed = match SpeedMultiplier::from_bits(DEFAULT_PLAYBACK_SPEED_BITS) {
        Ok(speed) => speed,
        Err(_) => {
            return vstd::pervasive::unreached();
        },
    };
    let playback_doctor = match crate::diagnostics::diagnose_playback(recording, normal_speed, "1") {
        Ok(report) => report,
        Err(_) => {
            return vstd::pervasive::unreached();
        },
    };
    proof {
        lemma_checks_by_content(playback_doctor.checks@);
    }
    let mut readiness = String::new();
    push_str(&mut readiness, "Ready at 1.0x · ");
    push_str(&mut readiness, decimal_string(playback_doctor.canonical_event_count as u64).as_str());
    push_str(&mut readiness, " events · ");
    push_str(&mut readiness, decimal_string(metrics.peak_events_per_second as u64).as_str());
    push_str(&mut readiness, " peak/s · cleanup ");
    push_str(
        &mut readiness,
        decimal_string(playback_doctor.preparation_report.skipped_unmatched_release_events as u64).as_str(),
    );
    push_str(&mut readiness, " skipped / ");
    push_str(
        &mut readiness,
        decimal_string(playback_doctor.preparation_report.appended_release_events as u64).as_str(),
    );
    push_str(&mut readiness, " appended");
    let checks = crate::presentation::build_issue_lines(
        playback_doctor.checks.as_slice(),
        "No playback warnings or failures.",
    );
    proof {
        assert(details@ =~= recording_details_text(
            session@.source_path,
            session@.working,
            duration_text@,
            !same_recording(session@.original, session@.working),
        ));
        assert(readiness@ =~= playback_readiness_text(session@.working.1));
    }
    (title, details, readiness, checks)
}

/// The state behind the desktop shell: the recording library, the editor, the
/// settings and the action in progress.
#[derive(Debug)]
pub struct DesktopShellModel {
    pub active_view: ActiveView,
    pub recording_library: RecordingLibraryState,
    pub editing_session: Option<EditingSession>,
    pub configuration: AppConfiguration,
    pub event_list_filter: EventListFilter,
    pub environment_report: EnvironmentDoctorReport,
    pub selected_playback_loop_count: u16,
    pub selected_playback_speed: SpeedMultiplier,
    pub playback_loop_input_text: String,
    pub action_execution_state: ActionExecutionState,
    pub action_running: bool,
}

impl EditingSession {
    /// Opens the editor on a library entry.
    pub fn from_library_entry(entry: &RecordingLibraryEntry) -> (session: Self)
        ensures
            session@ == fresh_session(*entry),
    {
        EditingSession::from_recording(entry.path.clone(), &entry.recording)
    }

    /// The title the editor shows for its working copy.
    pub fn display_title(&self) -> (title: String)
        ensures
            shown_title(self@.working.0) matches Some(own) ==> title@ == own,
            is_display_title(title@, self@.working.0),
    {
        display_title_for_recording(self.source_path().as_str(), self.working_recording())
    }
}

impl DesktopShellModel {
    /// The editor's session, as a view.
    pub open spec fn editor(&self) -> Option<EditingSessionView> {
        session_view(self.editing_session)
    }

    /// Everything but the editing session is as before.
    pub open spec fn keeps_all_but_editor(&self, before: &DesktopShellModel) -> bool {
        &&& self.active_view == before.active_view
        &&& self.recording_library == before.recording_library
        &&& self.configuration == before.configuration
        &&& self.event_list_filter == before.event_list_filter
        &&& self.environment_report == before.environment_report
        &&& self.selected_playback_loop_count == before.selected_playback_loop_count
        &&& self.selected_playback_speed == before.selected_playback_speed
        &&& self.playback_loop_input_text == before.playback_loop_input_text
        &&& self.action_execution_state == before.action_execution_state
        &&& self.action_running == before.action_running
    }

    /// Moves the selection onto the events the filter shows: none when no event
    /// is shown, the current one when it is shown, otherwise the first shown.
    pub fn sync_event_selection_to_filter(&mut self)
        ensures
            final(self).keeps_all_but_editor(old(self)),
            final(self).editor() == with_synced_selection(old(self).editor(), old(self).event_list_filter),
    {
        let visible = crate::presentation::visible_event_source_indices(
            self.editing_session.as_ref(),
            self.event_list_filter,
        );
        let selected = match &self.editing_session {
            Some(session) => session.selected_event_index(),
            None => None,
        };
        let keep = match selected {
            Some(index) => contains_position(&visible, index),
            None => false,
        };
        proof {
            if self.editing_session is Some {
                let events = self.editing_session->0.spec_working().1;
                lemma_shown_positions_in_range(events, self.event_list_filter, events.len() as int);
            }
        }
        match &mut self.editing_session {
            None => {},
            Some(session) => {
                if visible.len() == 0 {
                    session.clear_selection();
                } else if !keep {
                    session.select_event(visible[0]);
                }
            },
        }
    }

    /// Everything but the loop count and its input text is as before.
    pub open spec fn keeps_all_but_loop_count(&self, before: &DesktopShellModel) -> bool {
        &&& self.active_view == before.active_view
        &&& self.recording_library == before.recording_library
        &&& self.editing_session == before.editing_session
        &&& self.configuration == before.configuration
        &&& self.event_list_filter == before.event_list_filter
        &&& self.environment_report == before.environment_report
        &&& self.selected_playback_speed == before.selected_playback_speed
        &&& self.action_execution_state == before.action_execution_state
        &&& self.action_running == before.action_running
    }

    /// Reports whether the editor holds changes that are not saved.
    pub fn editor_has_unsaved_changes(&self) -> (dirty: bool)
        ensures
            dirty == has_unsaved_changes(self.editor()),
    {
        match &self.editing_session {
            Some(session) => session.is_dirty(),
            None => false,
        }
    }

    /// Reports whether a recording or playback action is in progress.
    pub fn is_action_running(&self) -> (running: bool)
        ensures
            running == self.action_running,
    {
        self.action_running
    }

    /// Records a message for the user as the outcome of the last request.
    pub fn note_action_notice(&mut self, message: String)
        ensures
            final(self).action_execution_state == ActionExecutionState::Notice(message),
            final(self).active_view == old(self).active_view,
            final(self).recording_library == old(self).recording_library,
            final(self).editing_session == old(self).editing_session,
            final(self).configuration == old(self).configuration,
            final(self).event_list_filter == old(self).event_list_filter,
            final(self).environment_report == old(self).environment_report,
            final(self).selected_playback_loop_count == old(self).selected_playback_loop_count,
            final(self).selected_playback_speed == old(self).selected_playback_speed,
            final(self).playback_loop_input_text == old(self).playback_loop_input_text,
            final(self).action_running == old(self).action_running,
    {
        self.action_execution_state = ActionExecutionState::Notice(message);
    }

    /// Shows another page.
    pub fn set_active_view(&mut self, active_view: ActiveView)
        ensures
            *final(self) == (DesktopShellModel { active_view, ..*old(self) }),
    {
        self.active_view = active_view;
    }

    /// Selects the playback speed.
    pub fn set_playback_speed(&mut self, speed: SpeedMultiplier)
        ensures
            *final(self) == (DesktopShellModel { selected_playback_speed: speed, ..*old(self) }),
    {
        self.selected_playback_speed = speed;
    }

    /// Selects how new recordings are captured.
    pub fn set_recording_strategy(&mut self, recording_strategy: RecordingStrategy)
        ensures
            final(self).configuration.recording_strategy == recording_strategy,
            final(self).configuration.stop_action_hotkey == old(self).configuration.stop_action_hotkey,
            final(self).keeps_all_but_configuration(old(self)),
    {
        self.configuration.recording_strategy = recording_strategy;
    }

    /// Everything but the configuration is as before.
    pub open spec fn keeps_all_but_configuration(&self, before: &DesktopShellModel) -> bool {
        &&& self.active_view == before.active_view
        &&& self.recording_library == before.recording_library
        &&& self.editing_session == before.editing_session
        &&& self.event_list_filter == before.event_list_filter
        &&& self.environment_report == before.environment_report
        &&& self.selected_playback_loop_count == before.selected_playback_loop_count
        &&& self.selected_playback_speed == before.selected_playback_speed
        &&& self.playback_loop_input_text == before.playback_loop_input_text
        &&& self.action_execution_state == before.action_execution_state
        &&& self.action_running == before.action_running
    }

    /// Replaces the environment report with a fresh one.
    pub fn refresh_diagnostics(&mut self, environment_report: EnvironmentDoctorReport)
        ensures
            *final(self) == (DesktopShellModel { environment_report, ..*old(self) }),
    {
        self.environment_report = environment_report;
    }

    /// Selects a loop count, clamped to the supported range, and shows it in the
    /// input box.
    pub fn set_playback_loop_count(&mut self, loop_count: u16)
        ensures
            final(self).selected_playback_loop_count == clamped_loop_count(loop_count),
            final(self).playback_loop_input_text@ == decimal_text(clamped_loop_count(loop_count) as nat),
            final(self).keeps_all_but_loop_count(old(self)),
    {
        let clamped = if loop_count < crate::presentation::MIN_PLAYBACK_LOOP_COUNT {
            crate::presentation::MIN_PLAYBACK_LOOP_COUNT
        } else if loop_count > crate::presentation::MAX_PLAYBACK_LOOP_COUNT {
            crate::presentation::MAX_PLAYBACK_LOOP_COUNT
        } else {
            loop_count
        };
        self.selected_playback_loop_count = clamped;
        self.playback_loop_input_text = crate::presentation::format_playback_loop_input(clamped);
    }

    /// Takes the text typed into the loop count box: blank text shows the
    /// selected count again; other text stays as typed and, when it reads as a
    /// number, selects that number clamped to the supported range.
    pub fn set_playback_loop_input_text(&mut self, input: String)
        ensures
            trim(input@).len() == 0 ==> final(self).playback_loop_input_text@ == decimal_text(
                old(self).selected_playback_loop_count as nat,
            ) && final(self).selected_playback_loop_count == old(self).selected_playback_loop_count,
            trim(input@).len() > 0 ==> final(self).playback_loop_input_text@ == input@
                && final(self).selected_playback_loop_count == (match loop_input_count(input@) {
                Some(count) => count,
                None => old(self).selected_playback_loop_count,
            }),
            final(self).keeps_all_but_loop_count(old(self)),
    {
        let chars = chars_of(input.as_str());
        let (start, end) = trimmed_bounds(chars.as_slice());
        if start == end {
            self.playback_loop_input_text = crate::presentation::format_playback_loop_input(
                self.selected_playback_loop_count,
            );
            return;
        }
        let parsed = crate::presentation::clamp_playback_loop_input(input.as_str());
        self.playback_loop_input_text = input;
        if let Some(loop_count) = parsed {
            self.selected_playback_loop_count = loop_count;
        }
    }

    /// Settles the loop count box: the count its text selects, or the selected
    /// count when the text does not read as one, shown as a number.
    pub fn commit_playback_loop_input_text(&mut self)
        ensures
            final(self).selected_playback_loop_count == committed_loop_count(
                old(self).playback_loop_input_text@,
                old(self).selected_playback_loop_count,
            ),
            final(self).playback_loop_input_text@ == decimal_text(
                committed_loop_count(
                    old(self).playback_loop_input_text@,
                    old(self).selected_playback_loop_count,
                ) as nat,
            ),
            final(self).keeps_all_but_loop_count(old(self)),
    {
        let committed = match crate::presentation::clamp_playback_loop_input(
            self.playback_loop_input_text.as_str(),
        ) {
            Some(loop_count) => loop_count,
            None => self.selected_playback_loop_count,
        };
        proof {
            lemma_loop_input_in_range(self.playback_loop_input_text@);
        }
        self.set_playback_loop_count(committed);
    }

    /// Everything but the editing session and the filter is as before.
    pub open spec fn keeps_all_but_editor_and_filter(&self, before: &DesktopShellModel) -> bool {
        &&& self.active_view == before.active_view
        &&& self.recording_library == before.recording_library
        &&& self.configuration == before.configuration
        &&& self.environment_report == before.environment_report
        &&& self.selected_playback_loop_count == before.selected_playback_loop_count
        &&& self.selected_playback_speed == before.selected_playback_speed
        &&& self.playback_loop_input_text == before.playback_loop_input_text
        &&& self.action_execution_state == before.action_execution_state
        &&& self.action_running == before.action_running
    }

    /// Shows or hides key events in the event list.
    pub fn set_show_key_events(&mut self, show_key_events: bool)
        ensures
            final(self).event_list_filter == (EventListFilter {
                show_key_events,
                ..old(self).event_list_filter
            }),
            final(self).editor() == with_synced_selection(old(self).editor(), final(self).event_list_filter),
            final(self).keeps_all_but_editor_and_filter(old(self)),
    {
        self.event_list_filter.show_key_events = show_key_events;
        self.sync_event_selection_to_filter();
    }

    /// Shows or hides mouse button events in the event list.
    pub fn set_show_mouse_button_events(&mut self, show_mouse_button_events: bool)
        ensures
            final(self).event_list_filter == (EventListFilter {
                show_mouse_button_events,
                ..old(self).event_list_filter
            }),
            final(self).editor() == with_synced_selection(old(self).editor(), final(self).event_list_filter),
            final(self).keeps_all_but_editor_and_filter(old(self)),
    {
        self.event_list_filter.show_mouse_button_events = show_mouse_button_events;
        self.sync_event_selection_to_filter();
    }

    /// Shows or hides mouse wheel events in the event list.
    pub fn set_show_mouse_wheel_events(&mut self, show_mouse_wheel_events: bool)
        ensures
            final(self).event_list_filter == (EventListFilter {
                show_mouse_wheel_events,
                ..old(self).event_list_filter
            }),
            final(self).editor() == with_synced_selection(old(self).editor(), final(self).event_list_filter),
            final(self).keeps_all_but_editor_and_filter(old(self)),
    {
        self.event_list_filter.show_mouse_wheel_events = show_mouse_wheel_events;
        self.sync_event_selection_to_filter();
    }

    /// Shows or hides pointer moves in the event list.
    pub fn set_show_pointer_move_events(&mut self, show_pointer_move_events: bool)
        ensures
            final(self).event_list_filter == (EventListFilter {
                show_pointer_move_events,
                ..old(self).event_list_filter
            }),
            final(self).editor() == with_synced_selection(old(self).editor(), final(self).event_list_filter),
            final(self).keeps_all_but_editor_and_filter(old(self)),
    {
        self.event_list_filter.show_pointer_move_events = show_pointer_move_events;
        self.sync_event_selection_to_filter();
    }

    /// Selects the event shown in row `index` of the event list; a row past the
    /// end changes nothing.
    pub fn select_event(&mut self, index: usize)
        ensures
            final(self).keeps_all_but_editor(old(self)),
            final(self).editor() == (if index < visible_positions(old(self).editor(), old(self).event_list_filter).len() {
                Some(
                    EditingSessionView {
                        selected: Some(
                            visible_positions(old(self).editor(), old(self).event_list_filter)[index as int],
                        ),
                        ..old(self).editor()->0
                    },
                )
            } else {
                old(self).editor()
            }),
    {
        let visible = crate::presentation::visible_event_source_indices(
            self.editing_session.as_ref(),
            self.event_list_filter,
        );
        proof {
            if self.editing_session is Some {
                let events = self.editing_session->0.spec_working().1;
                lemma_shown_positions_in_range(events, self.event_list_filter, events.len() as int);
            }
        }
        if index >= visible.len() {
            return;
        }
        let source_index = visible[index];
        if let Some(session) = &mut self.editing_session {
            session.select_event(source_index);
        }
    }

    /// Opens the editor on the selected recording of the library, if any.
    pub fn sync_editor_with_selected_recording(&mut self)
        ensures
            final(self).keeps_all_but_editor(old(self)),
            final(self).editor() == session_for_library(old(self).recording_library, old(self).event_list_filter),
    {
        self.editing_session = match self.recording_library.selected_recording() {
            Some(entry) => Some(EditingSession::from_library_entry(entry)),
            None => None,
        };
        self.sync_event_selection_to_filter();
    }

    /// Selects another recording of the library and opens the editor on it;
    /// refused with a notice while the editor holds unsaved changes.
    pub fn select_recording(&mut self, index: usize)
        ensures
            old(self).recording_library.selected_recording_index == Some(index) ==> *final(self)
                == *old(self),
            old(self).recording_library.selected_recording_index != Some(index) && has_unsaved_changes(
                old(self).editor(),
            ) ==> (final(self).action_execution_state matches ActionExecutionState::Notice(message)
                && message@ == "Save or revert the current editor changes before switching sessions."@
                && final(self).editing_session == old(self).editing_session
                && final(self).recording_library == old(self).recording_library),
            old(self).recording_library.selected_recording_index != Some(index) && !has_unsaved_changes(
                old(self).editor(),
            ) ==> {
                &&& final(self).recording_library.session_directory == old(self).recording_library.session_directory
                &&& final(self).recording_library.recordings == old(self).recording_library.recordings
                &&& final(self).recording_library.invalid_recordings == old(self).recording_library.invalid_recordings
                &&& final(self).recording_library.selected_recording_index == (if index < old(
                    self,
                ).recording_library.recordings@.len() {
                    Some(index)
                } else {
                    old(self).recording_library.selected_recording_index
                })
                &&& final(self).editor() == session_for_library(
                    final(self).recording_library,
                    old(self).event_list_filter,
                )
                &&& final(self).action_execution_state == old(self).action_execution_state
            },
            final(self).active_view == old(self).active_view,
            final(self).configuration == old(self).configuration,
            final(self).event_list_filter == old(self).event_list_filter,
            final(self).environment_report == old(self).environment_report,
            final(self).selected_playback_loop_count == old(self).selected_playback_loop_count,
            final(self).selected_playback_speed == old(self).selected_playback_speed,
            final(self).playback_loop_input_text == old(self).playback_loop_input_text,
            final(self).action_running == old(self).action_running,
    {
        if self.recording_library.selected_recording_index == Some(index) {
            return;
        }
        if self.editor_has_unsaved_changes() {
            self.note_action_notice(
                "Save or revert the current editor changes before switching sessions.".to_owned(),
            );
            return;
        }
        self.recording_library.select(index);
        self.sync_editor_with_selected_recording();
    }

    /// The recording that playback would use: the editor's working copy, else
    /// the selected recording of the library.
    pub open spec fn editable_view(&self) -> Option<(RecordingMetadataView, Seq<InputEvent>)> {
        match self.editor() {
            Some(session) => Some(session.working),
            None => match self.recording_library.selected_entry() {
                Some(entry) => Some(entry.recording@),
                None => None,
            },
        }
    }

    /// The path of the recording in the editor, else of the selected one.
    pub open spec fn selected_path(&self) -> Option<Seq<char>> {
        match self.editor() {
            Some(session) => Some(session.source_path),
            None => match self.recording_library.selected_entry() {
                Some(entry) => Some(entry.path@),
                None => None,
            },
        }
    }

    /// The recording that playback would use: the editor's working copy, else
    /// the selected recording of the library.
    pub fn editable_recording(&self) -> (recording: Option<&Recording>)
        ensures
            match recording {
                Some(found) => self.editable_view() == Some(found@),
                None => self.editable_view() is None,
            },
    {
        match &self.editing_session {
            Some(session) => Some(session.working_recording()),
            None => match self.recording_library.selected_recording() {
                Some(entry) => Some(&entry.recording),
                None => None,
            },
        }
    }

    /// The path of the recording in the editor, else of the selected one.
    pub fn current_selected_path(&self) -> (path: Option<String>)
        ensures
            match path {
                Some(found) => self.selected_path() == Some(found@),
                None => self.selected_path() is None,
            },
    {
        match &self.editing_session {
            Some(session) => Some(session.source_path().clone()),
            None => match self.recording_library.selected_recording() {
                Some(entry) => Some(entry.path.clone()),
                None => None,
            },
        }
    }

    /// The title of the recording in the editor, else of the selected one.
    pub fn current_recording_title(&self) -> (title: Option<String>)
        ensures
            title is Some <==> self.editable_view() is Some,
            self.editable_view() matches Some(recording) ==> (shown_title(recording.0) matches Some(own)
                ==> title->0@ == own),
            self.editable_view() matches Some(recording) ==> is_display_title(title->0@, recording.0),
    {
        match &self.editing_session {
            Some(session) => Some(session.display_title()),
            None => match self.recording_library.selected_recording() {
                Some(entry) => Some(entry.display_title()),
                None => None,
            },
        }
    }

    /// Adds or removes a modifier of the stop hotkey; refused, with the reason,
    /// when the hotkey would be left without a modifier.
    #[verifier::spinoff_prover]
    #[verifier::rlimit(40)]
    pub fn set_stop_hotkey_modifier(&mut self, modifier: HotkeyModifier, enabled: bool) -> (result:
        Result<(), String>)
        ensures
            match binding_outcome(
                requested_modifiers(old(self).configuration.stop_action_hotkey@.0, modifier, enabled),
                old(self).configuration.stop_action_hotkey@.1,
            ) {
                Ok(binding) => result is Ok && final(self).configuration.stop_action_hotkey@ == binding,
                Err(error) => (result matches Err(message) && message@ == parse_error_text(error))
                    && final(self).configuration.stop_action_hotkey
                    == old(self).configuration.stop_action_hotkey,
            },
            result is Err <==> !enabled && old(self).configuration.stop_action_hotkey@.0 == seq![modifier],
            final(self).configuration.recording_strategy == old(self).configuration.recording_strategy,
            final(self).keeps_all_but_configuration(old(self)),
    {
        let current = self.configuration.stop_action_hotkey.modifiers();
        let key = self.configuration.stop_action_hotkey.key();
        let ghost current_view = current@;
        proof {
            lemma_canonical_modifiers_distinct(current_view);
        }
        let mut requested: Vec<HotkeyModifier> = Vec::new();
        let mut present = false;
        let mut index: usize = 0;
        while index < current.len()
            invariant
                index <= current.len(),
                current@ == current_view,
                well_formed_modifiers(current_view),
                forall|i: int, j: int| 0 <= i < j < current_view.len() ==> current_view[i] != current_view[j],
                enabled ==> requested@ == current_view.subrange(0, index as int),
                !enabled ==> requested@ == modifiers_without(current_view.subrange(0, index as int), modifier),
                present == current_view.subrange(0, index as int).contains(modifier),
                forall|k: int| 0 <= k < requested@.len() ==> exists|j: int| 0 <= j < index && #[trigger] requested@[k] == current_view[j],
                forall|a: int, b: int| 0 <= a < b < requested@.len() ==> requested@[a] != requested@[b],
                !enabled ==> forall|k: int| 0 <= k < requested@.len() ==> requested@[k] != modifier,
                !enabled && requested@.len() == 0 ==> forall|j: int| 0 <= j < index ==> current_view[j] == modifier,
            decreases current.len() - index,
        {
            let candidate = current[index];
            let ghost before = requested@;
            proof {
                assert(current_view.subrange(0, index as int + 1).drop_last() =~= current_view.subrange(0, index as int));
                assert(current_view.subrange(0, index as int + 1).last() == candidate);
                assert forall|k: int| 0 <= k < before.len() implies before[k] != candidate by {
                    let j = choose|j: int| 0 <= j < index && before[k] == current_view[j];
                    assert(current_view[j] != current_view[index as int]);
                }
            }
            if candidate == modifier {
                present = true;
            }
            if enabled || candidate != modifier {
                requested.push(candidate);
                proof {
                    assert forall|k: int| 0 <= k < requested@.len() implies exists|j: int| 0 <= j < index + 1 && #[trigger] requested@[k] == current_view[j] by {
                        if k == before.len() {
                            assert(requested@[k] == current_view[index as int]);
                        } else {
                            assert(requested@[k] == before[k]);
                        }
                    }
                }
            }
            proof {
                let prefix = current_view.subrange(0, index as int + 1);
                assert(prefix.contains(modifier) == (current_view.subrange(0, index as int).contains(modifier) || candidate == modifier)) by {
                    if candidate == modifier {
                        assert(prefix[index as int] == modifier);
                    }
                    if current_view.subrange(0, index as int).contains(modifier) {
                        let j = choose|j: int| 0 <= j < index && current_view.subrange(0, index as int)[j] == modifier;
                        assert(prefix[j] == modifier);
                    }
                    if prefix.contains(modifier) {
                        let j = choose|j: int| 0 <= j < prefix.len() && prefix[j] == modifier;
                        if j < index {
                            assert(current_view.subrange(0, index as int)[j] == modifier);
                        }
                    }
                }
                if enabled {
                    assert(requested@ =~= prefix);
                }
            }
            index += 1;
        }
        proof {
            assert(current_view.subrange(0, current_view.len() as int) =~= current_view);
        }
        if enabled && !present {
            requested.push(modifier);
            proof {
                assert forall|a: int, b: int| 0 <= a < b < requested@.len() implies requested@[a] != requested@[b] by {
                    if b == requested@.len() - 1 {
                        assert(requested@[a] == current_view[a]);
                    }
                }
            }
        }
        proof {
            let wanted = requested_modifiers(current_view, modifier, enabled);
            assert(requested@ =~= wanted);
            if requested@.len() > 0 {
                lemma_distinct_modifiers_build(wanted, key);
            }
            if !enabled && current_view == seq![modifier] {
                assert(requested@.len() == 0) by {
                    if requested@.len() > 0 {
                        let j = choose|j: int| 0 <= j < current_view.len() && #[trigger] requested@[0] == current_view[j];
                        assert(current_view[j] == modifier);
                    }
                }
            }
            if !enabled && requested@.len() == 0 {
                if current_view.len() >= 2 {
                    assert(current_view[0] == current_view[1]);
                }
                assert(current_view =~= seq![modifier]);
            }
        }
        match HotkeyBinding::new(requested, key) {
            Ok(binding) => {
                self.configuration.stop_action_hotkey = binding;
                Ok(())
            },
            Err(error) => Err(error.message()),
        }
    }

    /// Changes the base key of the stop hotkey, keeping its modifiers.
    pub fn set_stop_hotkey_key(&mut self, key: HotkeyKey)
        ensures
            final(self).configuration.stop_action_hotkey@ == (
                old(self).configuration.stop_action_hotkey@.0,
                key,
            ),
            final(self).configuration.recording_strategy == old(self).configuration.recording_strategy,
            final(self).keeps_all_but_configuration(old(self)),
    {
        let current = self.configuration.stop_action_hotkey.modifiers();
        let mut modifiers: Vec<HotkeyModifier> = Vec::new();
        let mut index: usize = 0;
        while index < current.len()
            invariant
                index <= current.len(),
                modifiers@ == current@.subrange(0, index as int),
            decreases current.len() - index,
        {
            modifiers.push(current[index]);
            index += 1;
            assert(modifiers@ =~= current@.subrange(0, index as int));
        }
        proof {
            assert(modifiers@ =~= current@);
            lemma_well_formed_modifiers_build(modifiers@, key);
        }
        match HotkeyBinding::new(modifiers, key) {
            Ok(binding) => {
                self.configuration.stop_action_hotkey = binding;
            },
            Err(_) => {
                proof {
                    assert(false);
                }
            },
        }
    }

    /// Starts a recording into `destination`, with the configured strategy and
    /// stop hotkey; refused while an action runs or the editor holds unsaved
    /// changes.
    pub fn begin_recording_request(&mut self, destination: CaptureDestination) -> (result: Result<
        RecordingRequest,
        String,
    >)
        ensures
            old(self).action_running ==> (result matches Err(message) && message@
                == "Another action is already running. Stop it before starting a new recording."@)
                && *final(self) == *old(self),
            !old(self).action_running && has_unsaved_changes(old(self).editor()) ==> (result matches Err(
                message,
            ) && message@
                == "Save or revert the current editor changes before starting a new recording."@)
                && *final(self) == *old(self),
            !old(self).action_running && !has_unsaved_changes(old(self).editor()) ==> {
                &&& result matches Ok(request)
                &&& request.output_file_name@ == destination.file_name@
                &&& request.recording_title@ == destination.recording_title@
                &&& request.strategy == old(self).configuration.recording_strategy
                &&& request.stop_hotkey matches Some(hotkey)
                &&& hotkey@ == old(self).configuration.stop_action_hotkey@
                &&& final(self).action_running
                &&& final(self).action_execution_state matches ActionExecutionState::RecordingRunning {
                    recording_title,
                    strategy,
                }
                &&& recording_title@ == destination.recording_title@
                &&& strategy == old(self).configuration.recording_strategy
                &&& final(self).active_view == old(self).active_view
                &&& final(self).recording_library == old(self).recording_library
                &&& final(self).editing_session == old(self).editing_session
                &&& final(self).configuration == old(self).configuration
                &&& final(self).event_list_filter == old(self).event_list_filter
                &&& final(self).environment_report == old(self).environment_report
                &&& final(self).selected_playback_loop_count == old(self).selected_playback_loop_count
                &&& final(self).selected_playback_speed == old(self).selected_playback_speed
                &&& final(self).playback_loop_input_text == old(self).playback_loop_input_text
            },
    {
        if self.is_action_running() {
            return Err(
                "Another action is already running. Stop it before starting a new recording.".to_owned(),
            );
        }
        if self.editor_has_unsaved_changes() {
            return Err(
                "Save or revert the current editor changes before starting a new recording.".to_owned(),
            );
        }
        let strategy = self.configuration.recording_strategy;
        let request = RecordingRequest {
            output_file_name: destination.file_name,
            recording_title: destination.recording_title.clone(),
            strategy,
            stop_hotkey: Some(self.configuration.stop_action_hotkey.duplicate()),
        };
        self.action_running = true;
        self.action_execution_state = ActionExecutionState::RecordingRunning {
            recording_title: destination.recording_title,
            strategy,
        };
        Ok(request)
    }

    /// Starts playing the recording in the editor, else the selected one, with
    /// the settled loop count, the selected speed and the stop hotkey; refused
    /// while an action runs or when there is no recording to play.
    pub fn begin_playback_request(&mut self) -> (result: Result<PlaybackRequest, String>)
        ensures
            old(self).action_running ==> (result matches Err(message) && message@
                == "Another action is already running. Stop it before starting playback."@)
                && *final(self) == *old(self),
            !old(self).action_running ==> {
                let count = committed_loop_count(
                    old(self).playback_loop_input_text@,
                    old(self).selected_playback_loop_count,
                );
                &&& final(self).selected_playback_loop_count == count
                &&& final(self).playback_loop_input_text@ == decimal_text(count as nat)
                &&& old(self).editable_view() is None ==> (result matches Err(message) && message@
                    == "Select a validated recording before starting playback."@)
                    && final(self).action_execution_state == old(self).action_execution_state
                    && final(self).action_running == old(self).action_running
                &&& old(self).editable_view() matches Some(recording) ==> {
                    &&& result matches Ok(request)
                    &&& request.recording@ == recording
                    &&& (shown_title(recording.0) matches Some(own) ==> request.recording_title@ == own)
                    &&& is_display_title(request.recording_title@, recording.0)
                    &&& request.loop_count == count
                    &&& request.speed == old(self).selected_playback_speed
                    &&& request.stop_hotkey matches Some(hotkey)
                    &&& hotkey@ == old(self).configuration.stop_action_hotkey@
                    &&& final(self).action_running
                    &&& final(self).action_execution_state matches ActionExecutionState::PlaybackRunning {
                        recording_title,
                        speed,
                    }
                    &&& recording_title@ == request.recording_title@
                    &&& speed == old(self).selected_playback_speed
                }
                &&& final(self).active_view == old(self).active_view
                &&& final(self).recording_library == old(self).recording_library
                &&& final(self).editing_session == old(self).editing_session
                &&& final(self).configuration == old(self).configuration
                &&& final(self).event_list_filter == old(self).event_list_filter
                &&& final(self).environment_report == old(self).environment_report
                &&& final(self).selected_playback_speed == old(self).selected_playback_speed
            },
    {
        if self.is_action_running() {
            return Err(
                "Another action is already running. Stop it before starting playback.".to_owned(),
            );
        }
        self.commit_playback_loop_input_text();
        let recording = match self.editable_recording() {
            Some(recording) => recording.duplicate(),
            None => {
                return Err("Select a validated recording before starting playback.".to_owned());
            },
        };
        let recording_title = match self.current_recording_title() {
            Some(title) => title,
            None => "Selected session".to_owned(),
        };
        let speed = self.selected_playback_speed;
        let request = PlaybackRequest {
            recording,
            recording_title: recording_title.clone(),
            loop_count: self.selected_playback_loop_count,
            speed,
            stop_hotkey: Some(self.configuration.stop_action_hotkey.duplicate()),
        };
        self.action_running = true;
        self.action_execution_state = ActionExecutionState::PlaybackRunning { recording_title, speed };
        Ok(request)
    }

    /// Everything but the editing session and the outcome of the last request
    /// is as before.
    pub open spec fn keeps_all_but_editor_and_notice(&self, before: &DesktopShellModel) -> bool {
        &&& self.active_view == before.active_view
        &&& self.recording_library == before.recording_library
        &&& self.configuration == before.configuration
        &&& self.event_list_filter == before.event_list_filter
        &&& self.environment_report == before.environment_report
        &&& self.selected_playback_loop_count == before.selected_playback_loop_count
        &&& self.selected_playback_speed == before.selected_playback_speed
        &&& self.playback_loop_input_text == before.playback_loop_input_text
        &&& self.action_running == before.action_running
    }

    /// Deletes the selected event from the working copy; refused while an
    /// action runs.
    pub fn delete_selected_event(&mut self) -> (result: Result<(), String>)
        ensures
            old(self).action_running ==> error_is(result, "Stop the active action before editing the event list."@) && *final(self) == *old(self),
            !old(self).action_running && old(self).editor() is None ==> error_is(
                result,
                "No session is loaded into the editor."@,
            ) && *final(self) == *old(self),
            old(self).editor() matches Some(session) ==> (old(self).action_running || match session.selected {
                None => error_is(result, "Select an event before deleting it."@) && final(self).editor()
                    == old(self).editor(),
                Some(index) => result is Ok && final(self).editor() == with_synced_selection(
                    Some(after_delete(session, index as int)),
                    old(self).event_list_filter,
                ),
            }),
            final(self).keeps_all_but_editor(old(self)),
    {
        if self.is_action_running() {
            return Err("Stop the active action before editing the event list.".to_owned());
        }
        match &mut self.editing_session {
            None => {
                return Err("No session is loaded into the editor.".to_owned());
            },
            Some(session) => {
                if let Err(message) = session.delete_selected_event() {
                    return Err(message);
                }
            },
        }
        self.sync_event_selection_to_filter();
        Ok(())
    }

    /// Deletes the event shown in row `visible_index` of the event list from the
    /// working copy and says which event went; refused while an action runs.
    pub fn delete_visible_event(&mut self, visible_index: usize) -> (result: Result<(), String>)
        ensures
            old(self).action_running ==> error_is(result, "Stop the active action before editing the event list."@) && *final(self) == *old(self),
            !old(self).action_running && visible_index >= visible_positions(
                old(self).editor(),
                old(self).event_list_filter,
            ).len() ==> error_is(result, "Select a visible event before deleting it."@) && *final(self)
                == *old(self),
            !old(self).action_running && visible_index < visible_positions(
                old(self).editor(),
                old(self).event_list_filter,
            ).len() ==> {
                let session = old(self).editor()->0;
                let index = visible_positions(old(self).editor(), old(self).event_list_filter)[visible_index as int];
                &&& result is Ok
                &&& final(self).editor() == with_synced_selection(
                    Some(after_delete(session, index as int)),
                    old(self).event_list_filter,
                )
                &&& final(self).action_execution_state matches ActionExecutionState::Notice(message)
                &&& message@ == "Removed "@ + action_label(session.working.1[index as int].action)
                    + " from the working copy."@
            },
            final(self).keeps_all_but_editor_and_notice(old(self)),
    {
        if self.is_action_running() {
            return Err("Stop the active action before editing the event list.".to_owned());
        }
        let visible = crate::presentation::visible_event_source_indices(
            self.editing_session.as_ref(),
            self.event_list_filter,
        );
        proof {
            if self.editing_session is Some {
                let events = self.editing_session->0.spec_working().1;
                lemma_shown_positions_in_range(events, self.event_list_filter, events.len() as int);
            }
        }
        if visible_index >= visible.len() {
            return Err("Select a visible event before deleting it.".to_owned());
        }
        let source_index = visible[visible_index];
        let label = match &self.editing_session {
            Some(session) => format_event_action_label(&session.working_recording().events()[source_index].action),
            None => {
                return Err("No session is loaded into the editor.".to_owned());
            },
        };
        match &mut self.editing_session {
            None => {
                return Err("No session is loaded into the editor.".to_owned());
            },
            Some(session) => {
                if let Err(message) = session.delete_event_at(source_index) {
                    return Err(message);
                }
            },
        }
        self.sync_event_selection_to_filter();
        let mut message = String::new();
        push_str(&mut message, "Removed ");
        push_str(&mut message, label.as_str());
        push_str(&mut message, " from the working copy.");
        self.note_action_notice(message);
        Ok(())
    }

    /// Inserts a copy of the selected event right after it; refused while an
    /// action runs.
    pub fn duplicate_selected_event(&mut self) -> (result: Result<(), String>)
        ensures
            old(self).action_running ==> error_is(result, "Stop the active action before editing the event list."@) && *final(self) == *old(self),
            !old(self).action_running && old(self).editor() is None ==> error_is(
                result,
                "No session is loaded into the editor."@,
            ) && *final(self) == *old(self),
            old(self).editor() matches Some(session) ==> (old(self).action_running || match session.selected {
                None => error_is(result, "Select an event before duplicating it."@) && final(self).editor()
                    == old(self).editor(),
                Some(index) => result is Ok && final(self).editor() == with_synced_selection(
                    Some(after_duplicate(session, index as int)),
                    old(self).event_list_filter,
                ),
            }),
            final(self).keeps_all_but_editor(old(self)),
    {
        if self.is_action_running() {
            return Err("Stop the active action before editing the event list.".to_owned());
        }
        match &mut self.editing_session {
            None => {
                return Err("No session is loaded into the editor.".to_owned());
            },
            Some(session) => {
                if let Err(message) = session.duplicate_selected_event() {
                    return Err(message);
                }
            },
        }
        self.sync_event_selection_to_filter();
        Ok(())
    }

    /// Switches the selected key or mouse button event between pressed and
    /// released; refused while an action runs.
    pub fn toggle_selected_event_state(&mut self) -> (result: Result<(), String>)
        ensures
            old(self).action_running ==> error_is(result, "Stop the active action before editing the event list."@) && *final(self) == *old(self),
            !old(self).action_running && old(self).editor() is None ==> error_is(
                result,
                "No session is loaded into the editor."@,
            ) && *final(self) == *old(self),
            old(self).editor() matches Some(session) ==> (old(self).action_running || match session.selected {
                None => error_is(result, "Select an event before changing it."@) && final(self).editor()
                    == old(self).editor(),
                Some(index) => match toggled(session.working.1[index as int].action) {
                    None => error_is(
                        result,
                        "Only key and mouse button events can toggle between pressed and released states."@,
                    ) && final(self).editor() == old(self).editor(),
                    Some(action) => result is Ok && final(self).editor() == with_synced_selection(
                        Some(after_toggle(session, index as int, action)),
                        old(self).event_list_filter,
                    ),
                },
            }),
            final(self).keeps_all_but_editor(old(self)),
    {
        if self.is_action_running() {
            return Err("Stop the active action before editing the event list.".to_owned());
        }
        match &mut self.editing_session {
            None => {
                return Err("No session is loaded into the editor.".to_owned());
            },
            Some(session) => {
                if let Err(message) = session.toggle_selected_event_state() {
                    return Err(message);
                }
            },
        }
        self.sync_event_selection_to_filter();
        Ok(())
    }

    /// Moves the selected event in time by `delta_micros`, clamped between its
    /// neighbours; refused while an action runs.
    pub fn nudge_selected_event(&mut self, delta_micros: i64) -> (result: Result<(), String>)
        ensures
            old(self).action_running ==> error_is(result, "Stop the active action before editing the event list."@) && *final(self) == *old(self),
            !old(self).action_running && old(self).editor() is None ==> error_is(
                result,
                "No session is loaded into the editor."@,
            ) && *final(self) == *old(self),
            old(self).editor() matches Some(session) ==> (old(self).action_running || match session.selected {
                None => error_is(result, "Select an event before changing its timing."@)
                    && final(self).editor() == old(self).editor(),
                Some(index) => result is Ok && final(self).editor() == Some(
                    after_nudge(session, index as int, delta_micros),
                ),
            }),
            final(self).keeps_all_but_editor(old(self)),
    {
        if self.is_action_running() {
            return Err("Stop the active action before editing the event list.".to_owned());
        }
        match &mut self.editing_session {
            None => Err("No session is loaded into the editor.".to_owned()),
            Some(session) => session.nudge_selected_event(delta_micros),
        }
    }

    /// Drops every edit of the working copy.
    pub fn revert_editor_changes(&mut self)
        ensures
            final(self).editor() == with_synced_selection(
                match old(self).editor() {
                    Some(session) => Some(after_revert(session)),
                    None => None,
                },
                old(self).event_list_filter,
            ),
            final(self).keeps_all_but_editor(old(self)),
    {
        if let Some(session) = &mut self.editing_session {
            session.revert();
        }
        self.sync_event_selection_to_filter();
    }

    /// The shell as it starts: the editor on the selected recording of
    /// `recording_library`, default settings, one loop at normal speed, and no
    /// action in progress.
    pub fn new(recording_library: RecordingLibraryState, environment_report: EnvironmentDoctorReport) -> (model:
        Self)
        ensures
            model.active_view == ActiveView::Editor,
            model.recording_library == recording_library,
            model.editor() == session_for_library(recording_library, default_event_filter()),
            model.configuration.recording_strategy == RecordingStrategy::RawInput,
            model.configuration.stop_action_hotkey@ == (
                seq![HotkeyModifier::Control, HotkeyModifier::Shift],
                HotkeyKey::F12,
            ),
            model.event_list_filter == default_event_filter(),
            model.environment_report == environment_report,
            model.selected_playback_loop_count == 1,
            model.selected_playback_speed.value_bits() == DEFAULT_PLAYBACK_SPEED_BITS,
            model.playback_loop_input_text@ == decimal_text(1),
            model.action_execution_state == ActionExecutionState::Idle,
            !model.action_running,
    {
        let editing_session = match recording_library.selected_recording() {
            Some(entry) => Some(EditingSession::from_library_entry(entry)),
            None => None,
        };
        let selected_playback_speed = match SpeedMultiplier::from_bits(DEFAULT_PLAYBACK_SPEED_BITS) {
            Ok(speed) => speed,
            Err(_) => {
                return vstd::pervasive::unreached();
            },
        };
        let mut model = DesktopShellModel {
            active_view: ActiveView::Editor,
            recording_library,
            editing_session,
            configuration: AppConfiguration::default(),
            event_list_filter: EventListFilter::default(),
            environment_report,
            selected_playback_loop_count: 1,
            selected_playback_speed,
            playback_loop_input_text: crate::presentation::format_playback_loop_input(1),
            action_execution_state: ActionExecutionState::Idle,
            action_running: false,
        };
        model.sync_event_selection_to_filter();
        model
    }

    /// Ends the action in progress with its outcome. After a completed
    /// recording the editor page comes back and the path of the new file is
    /// returned, for the library to be read again with it selected.
    pub fn finish_action(&mut self, action_execution_state: ActionExecutionState) -> (output_path:
        Option<String>)
        ensures
            !final(self).action_running,
            final(self).action_execution_state == action_execution_state,
            match action_execution_state {
                ActionExecutionState::RecordingCompleted { output_path: path, .. } => output_path == Some(path)
                    && final(self).active_view == ActiveView::Editor,
                _ => output_path is None && final(self).active_view == old(self).active_view,
            },
            final(self).recording_library == old(self).recording_library,
            final(self).editing_session == old(self).editing_session,
            final(self).configuration == old(self).configuration,
            final(self).event_list_filter == old(self).event_list_filter,
            final(self).environment_report == old(self).environment_report,
            final(self).selected_playback_loop_count == old(self).selected_playback_loop_count,
            final(self).selected_playback_speed == old(self).selected_playback_speed,
            final(self).playback_loop_input_text == old(self).playback_loop_input_text,
    {
        let output_path = match &action_execution_state {
            ActionExecutionState::RecordingCompleted { output_path, .. } => Some(output_path.clone()),
            _ => None,
        };
        self.action_running = false;
        self.action_execution_state = action_execution_state;
        if output_path.is_some() {
            self.active_view = ActiveView::Editor;
        }
        output_path
    }

    /// Takes a library read again from disk and opens the editor on its
    /// selected recording.
    pub fn replace_library(&mut self, recording_library: RecordingLibraryState)
        ensures
            final(self).recording_library == recording_library,
            final(self).editor() == session_for_library(recording_library, old(self).event_list_filter),
            final(self).active_view == old(self).active_view,
            final(self).configuration == old(self).configuration,
            final(self).event_list_filter == old(self).event_list_filter,
            final(self).environment_report == old(self).environment_report,
            final(self).selected_playback_loop_count == old(self).selected_playback_loop_count,
            final(self).selected_playback_speed == old(self).selected_playback_speed,
            final(self).playback_loop_input_text == old(self).playback_loop_input_text,
            final(self).action_execution_state == old(self).action_execution_state,
            final(self).action_running == old(self).action_running,
    {
        self.recording_library = recording_library;
        self.sync_editor_with_selected_recording();
    }

    /// Takes a library read again from disk; the editor follows its selection
    /// unless it holds unsaved changes.
    pub fn refresh_library(&mut self, recording_library: RecordingLibraryState)
        ensures
            final(self).recording_library == recording_library,
            final(self).editor() == (if has_unsaved_changes(old(self).editor()) {
                old(self).editor()
            } else {
                session_for_library(recording_library, old(self).event_list_filter)
            }),
            final(self).active_view == old(self).active_view,
            final(self).configuration == old(self).configuration,
            final(self).event_list_filter == old(self).event_list_filter,
            final(self).environment_report == old(self).environment_report,
            final(self).selected_playback_loop_count == old(self).selected_playback_loop_count,
            final(self).selected_playback_speed == old(self).selected_playback_speed,
            final(self).playback_loop_input_text == old(self).playback_loop_input_text,
            final(self).action_execution_state == old(self).action_execution_state,
            final(self).action_running == old(self).action_running,
    {
        let dirty = self.editor_has_unsaved_changes();
        self.recording_library = recording_library;
        if !dirty {
            self.sync_editor_with_selected_recording();
        }
    }

    /// The path of the selected recording, to be deleted; refused while an
    /// action runs, while the editor holds unsaved changes, or when nothing is
    /// selected.
    pub fn recording_to_delete(&self) -> (result: Result<String, String>)
        ensures
            self.action_running ==> error_is(result, "Stop the active action before deleting a session."@),
            !self.action_running && has_unsaved_changes(self.editor()) ==> error_is(
                result,
                "Save or revert the current editor changes before deleting a session."@,
            ),
            !self.action_running && !has_unsaved_changes(self.editor())
                && self.recording_library.selected_entry() is None ==> error_is(
                result,
                "Select a session before deleting it."@,
            ),
            self.recording_library.selected_entry() matches Some(entry) ==> (self.action_running
                || has_unsaved_changes(self.editor()) || (result matches Ok(path) && path@ == entry.path@)),
    {
        if self.is_action_running() {
            return Err("Stop the active action before deleting a session.".to_owned());
        }
        if self.editor_has_unsaved_changes() {
            return Err("Save or revert the current editor changes before deleting a session.".to_owned());
        }
        match self.recording_library.selected_recording() {
            Some(entry) => Ok(entry.path.clone()),
            None => Err("Select a session before deleting it.".to_owned()),
        }
    }

    /// Takes the library read again after the selected recording was deleted,
    /// and shows the editor page.
    pub fn after_recording_deleted(&mut self, recording_library: RecordingLibraryState)
        ensures
            final(self).recording_library == recording_library,
            final(self).editor() == session_for_library(recording_library, old(self).event_list_filter),
            final(self).active_view == ActiveView::Editor,
            final(self).configuration == old(self).configuration,
            final(self).event_list_filter == old(self).event_list_filter,
            final(self).environment_report == old(self).environment_report,
            final(self).selected_playback_loop_count == old(self).selected_playback_loop_count,
            final(self).selected_playback_speed == old(self).selected_playback_speed,
            final(self).playback_loop_input_text == old(self).playback_loop_input_text,
            final(self).action_execution_state == old(self).action_execution_state,
            final(self).action_running == old(self).action_running,
    {
        self.replace_library(recording_library);
        self.active_view = ActiveView::Editor;
    }

    /// What saving the editor writes: nothing when there are no changes,
    /// otherwise the working copy to the file it came from; refused when no
    /// session is loaded.
    pub fn pending_save(&self) -> (result: Result<Option<SaveRequest>, String>)
        ensures
            self.editor() is None ==> error_is(result, "No session is loaded into the editor."@),
            self.editor() matches Some(session) ==> (result matches Ok(request) && (
            if same_recording(session.original, session.working) {
                request is None
            } else {
                request matches Some(save) && save.path@ == session.source_path
                    && save.recording@ == session.working
            })),
    {
        match &self.editing_session {
            None => Err("No session is loaded into the editor.".to_owned()),
            Some(session) => {
                if !session.is_dirty() {
                    return Ok(None);
                }
                Ok(
                    Some(
                        SaveRequest {
                            path: session.source_path().clone(),
                            recording: session.working_recording().duplicate(),
                        },
                    ),
                )
            },
        }
    }

    /// Takes the library read again after the editor's changes were saved: the
    /// editor reopens on the saved recording, keeping the selection where it
    /// still fits, and says where the changes went.
    pub fn finish_save(&mut self, recording_library: RecordingLibraryState)
        ensures
            final(self).recording_library == recording_library,
            old(self).editor() is None ==> final(self).editor() == session_for_library(
                recording_library,
                old(self).event_list_filter,
            ) && final(self).action_execution_state == old(self).action_execution_state,
            old(self).editor() matches Some(before) ==> {
                &&& final(self).editor() == with_synced_selection(
                    match session_for_library(recording_library, old(self).event_list_filter) {
                        Some(reopened) => Some(
                            EditingSessionView {
                                selected: clamped_selection(before.selected, reopened.working.1.len()),
                                ..reopened
                            },
                        ),
                        None => None,
                    },
                    old(self).event_list_filter,
                )
                &&& final(self).action_execution_state matches ActionExecutionState::Notice(message)
                &&& message@ == "Saved changes to "@ + before.source_path + "."@
            },
            final(self).active_view == old(self).active_view,
            final(self).configuration == old(self).configuration,
            final(self).event_list_filter == old(self).event_list_filter,
            final(self).environment_report == old(self).environment_report,
            final(self).selected_playback_loop_count == old(self).selected_playback_loop_count,
            final(self).selected_playback_speed == old(self).selected_playback_speed,
            final(self).playback_loop_input_text == old(self).playback_loop_input_text,
            final(self).action_running == old(self).action_running,
    {
        let (selected, source_path) = match &self.editing_session {
            Some(session) => (session.selected_event_index(), session.source_path().clone()),
            None => {
                self.replace_library(recording_library);
                return;
            },
        };
        self.replace_library(recording_library);
        if let Some(session) = &mut self.editing_session {
            session.select_event_clamped(selected);
        }
        self.sync_event_selection_to_filter();
        let mut message = String::new();
        push_str(&mut message, "Saved changes to ");
        push_str(&mut message, source_path.as_str());
        push_str(&mut message, ".");
        self.note_action_notice(message);
    }

    /// The window state that follows from this model; `duration_text` is the
    /// duration of the editor's working copy as the window writes it.
    pub fn shell_state(&self, duration_text: &str) -> (state: DesktopShellState)
        ensures
            selected_sections_hold(
                self.editor(),
                duration_text@,
                state.selected_recording_title@,
                state.selected_recording_details@,
                state.playback_summary@,
                state.playback_checks@,
            ),
            state.diagnostics_checks@ == crate::presentation::diagnostic_checks_text(
                self.environment_report.checks@,
                state.playback_summary@,
                state.playback_checks@,
            ),
            state.show_editor_view == (self.active_view == ActiveView::Editor),
            state.show_diagnostics_view == (self.active_view == ActiveView::Diagnostics),
            state.show_settings_view == (self.active_view == ActiveView::Settings),
            state.editor_tab_selected == (self.active_view == ActiveView::Editor),
            state.diagnostics_tab_selected == (self.active_view == ActiveView::Diagnostics),
            state.settings_tab_selected == (self.active_view == ActiveView::Settings),
            state.session_directory@ == "Sessions directory: "@ + self.recording_library.session_directory@,
            state.has_recordings == (self.recording_library.recordings@.len() > 0),
            self.recording_library.recordings@.len() > 0 ==> state.recording_titles@.len()
                == self.recording_library.recordings@.len(),
            self.recording_library.recordings@.len() == 0 ==> state.recording_titles@.len() == 1
                && state.recording_titles@[0]@ == "No validated recordings found yet"@,
            forall|i: int|
                0 <= i < self.recording_library.recordings@.len() ==> (shown_title(
                    self.recording_library.recordings@[i].recording@.0,
                ) matches Some(own) ==> #[trigger] state.recording_titles@[i]@ == own),
            self.recording_library.recordings@.len() > 0 ==> forall|i: int|
                0 <= i < self.recording_library.recordings@.len() ==> is_display_title(
                    #[trigger] state.recording_titles@[i]@,
                    self.recording_library.recordings@[i].recording@.0,
                ),
            state.selected_recording_index == (match self.recording_library.selected_recording_index {
                Some(index) => index as i32,
                None => -1i32,
            }),
            state.playback_loop_input_text@ == self.playback_loop_input_text@,
            texts_view(state.event_index_labels@) == event_column(
                self.editor(),
                self.event_list_filter,
                |placeholder: (Seq<char>, Seq<char>)| Seq::<char>::empty(),
                |index: usize, event: InputEvent| decimal_text((index + 1) as nat),
            ),
            texts_view(state.event_type_labels@) == event_column(
                self.editor(),
                self.event_list_filter,
                |placeholder: (Seq<char>, Seq<char>)| placeholder.0,
                |index: usize, event: InputEvent| table_type_label(event.action),
            ),
            texts_view(state.event_parameter_labels@) == event_column(
                self.editor(),
                self.event_list_filter,
                |placeholder: (Seq<char>, Seq<char>)| placeholder.1,
                |index: usize, event: InputEvent| table_parameter_label(event.action),
            ),
            texts_view(state.event_duration_labels@) == event_column(
                self.editor(),
                self.event_list_filter,
                |placeholder: (Seq<char>, Seq<char>)| Seq::<char>::empty(),
                |index: usize, event: InputEvent| elapsed_clock_text(event.elapsed_time.micros()),
            ),
            state.filter_key_events_selected == self.event_list_filter.show_key_events,
            state.filter_mouse_button_events_selected == self.event_list_filter.show_mouse_button_events,
            state.filter_mouse_wheel_events_selected == self.event_list_filter.show_mouse_wheel_events,
            state.filter_pointer_move_events_selected == self.event_list_filter.show_pointer_move_events,
            state.filter_key_event_count_label@ == decimal_text(
                editor_group_count(self.editor(), ActionKind::KeyPressed, ActionKind::KeyReleased),
            ),
            state.filter_mouse_button_event_count_label@ == decimal_text(
                editor_group_count(
                    self.editor(),
                    ActionKind::MouseButtonPressed,
                    ActionKind::MouseButtonReleased,
                ),
            ),
            state.filter_mouse_wheel_event_count_label@ == decimal_text(
                editor_group_count(
                    self.editor(),
                    ActionKind::MouseWheelScrolled,
                    ActionKind::MouseWheelScrolled,
                ),
            ),
            state.filter_pointer_move_event_count_label@ == decimal_text(
                editor_group_count(self.editor(), ActionKind::PointerMoved, ActionKind::PointerMoved),
            ),
            state.stop_hotkey_summary@ == "Stop recording or playback with "@ + binding_text(
                self.configuration.stop_action_hotkey@.0,
                self.configuration.stop_action_hotkey@.1,
            ) + " using "@ + self.environment_report.hotkey_backend@ + "."@,
            state.stop_hotkey_control_selected == self.configuration.stop_action_hotkey@.0.contains(
                HotkeyModifier::Control,
            ),
            state.stop_hotkey_alt_selected == self.configuration.stop_action_hotkey@.0.contains(
                HotkeyModifier::Alt,
            ),
            state.stop_hotkey_shift_selected == self.configuration.stop_action_hotkey@.0.contains(
                HotkeyModifier::Shift,
            ),
            state.stop_hotkey_win_selected == self.configuration.stop_action_hotkey@.0.contains(
                HotkeyModifier::Win,
            ),
            hotkey_key_option(state.stop_hotkey_key_index as int) == Some(
                self.configuration.stop_action_hotkey@.1,
            ),
            state.stop_hotkey_key_label@ == key_display_name(self.configuration.stop_action_hotkey@.1),
            state.can_start_recording == (!self.action_running && !has_unsaved_changes(self.editor())),
            state.can_play_selected_recording == (self.editable_view() is Some && !self.action_running
                && !has_unsaved_changes(self.editor())),
            state.can_stop_active_action == self.action_running,
            state.can_save_editor_changes == (has_unsaved_changes(self.editor()) && !self.action_running),
            state.can_revert_editor_changes == (has_unsaved_changes(self.editor()) && !self.action_running),
            state.can_delete_selected_recording == (self.recording_library.selected_entry() is Some
                && !self.action_running && !has_unsaved_changes(self.editor())),
            state.recording_strategy_raw_selected == (self.configuration.recording_strategy
                == RecordingStrategy::RawInput),
            state.recording_strategy_low_level_selected == (self.configuration.recording_strategy
                == RecordingStrategy::LowLevelHooks),
            diagnostics_summary_head(self.environment_report).is_prefix_of(state.diagnostics_summary@),
            self.editor() is None ==> state.diagnostics_summary@ == diagnostics_summary_head(
                self.environment_report,
            ),
            self.editor() matches Some(session) ==> (shown_title(session.working.0) matches Some(own)
                ==> state.diagnostics_summary@ == diagnostics_summary_head(self.environment_report)
                + " · session "@ + own),
            self.editor() matches Some(session) ==> exists|title: Seq<char>|
                #[trigger] is_display_title(title, session.working.0) && state.diagnostics_summary@
                    == diagnostics_summary_head(self.environment_report) + " · session "@ + title,
    {
        let action_running = self.is_action_running();
        let editor_is_dirty = self.editor_has_unsaved_changes();
        let (selected_recording_title, selected_recording_details, playback_summary, playback_checks) =
            build_selected_recording_sections(self.editing_session.as_ref(), duration_text);
        let diagnostics_checks = crate::presentation::build_diagnostic_checks_text(
            &self.environment_report,
            playback_summary.as_str(),
            playback_checks.as_str(),
        );
        let rows = build_visible_event_rows(self.editing_session.as_ref(), self.event_list_filter);
        let event_index_labels = build_event_index_items(self.editing_session.as_ref(), rows.as_slice());
        let event_type_labels = build_event_type_items(self.editing_session.as_ref(), rows.as_slice());
        let event_parameter_labels = build_event_parameter_items(
            self.editing_session.as_ref(),
            rows.as_slice(),
        );
        let event_duration_labels = build_event_duration_items(
            self.editing_session.as_ref(),
            rows.as_slice(),
        );
        proof {
            if self.editing_session is Some {
                let events = self.editing_session->0.spec_working().1;
                let positions = visible_positions(self.editor(), self.event_list_filter);
                assert(Seq::new(rows@.len(), |k: int| rows@[k].index_label@) =~= Seq::new(
                    positions.len(),
                    |k: int| decimal_text((positions[k] + 1) as nat),
                ));
                assert(Seq::new(rows@.len(), |k: int| rows@[k].type_label@) =~= Seq::new(
                    positions.len(),
                    |k: int| table_type_label(events[positions[k] as int].action),
                ));
                assert(Seq::new(rows@.len(), |k: int| rows@[k].parameter_label@) =~= Seq::new(
                    positions.len(),
                    |k: int| table_parameter_label(events[positions[k] as int].action),
                ));
                assert(Seq::new(rows@.len(), |k: int| rows@[k].duration_label@) =~= Seq::new(
                    positions.len(),
                    |k: int| elapsed_clock_text(events[positions[k] as int].elapsed_time.micros()),
                ));
            }
        }
        let counts = build_event_filter_counts(self.editing_session.as_ref());
        let mut session_directory = String::new();
        push_str(&mut session_directory, "Sessions directory: ");
        push_str(&mut session_directory, self.recording_library.session_directory.as_str());
        let hotkey = &self.configuration.stop_action_hotkey;
        let mut stop_hotkey_summary = String::new();
        push_str(&mut stop_hotkey_summary, "Stop recording or playback with ");
        let hotkey_text = hotkey.to_string();
        push_str(&mut stop_hotkey_summary, hotkey_text.as_str());
        push_str(&mut stop_hotkey_summary, " using ");
        push_str(&mut stop_hotkey_summary, self.environment_report.hotkey_backend.as_str());
        push_str(&mut stop_hotkey_summary, ".");
        let modifiers = hotkey.modifiers();
        let diagnostics_summary = build_diagnostics_summary(
            &self.environment_report,
            self.editing_session.as_ref(),
        );
        proof {
            if self.editing_session is None {
                assert(diagnostics_summary_head(self.environment_report).is_prefix_of(diagnostics_summary@)) by {
                    assert(diagnostics_summary@.subrange(0, diagnostics_summary@.len() as int) =~= diagnostics_summary@);
                }
            } else {
                let head = diagnostics_summary_head(self.environment_report);
                assert(head.is_prefix_of(diagnostics_summary@)) by {
                    let longer = head + " · session "@;
                    assert(longer.is_prefix_of(diagnostics_summary@));
                    assert forall|i: int| 0 <= i < head.len() implies head[i] == diagnostics_summary@[i] by {
                        assert(longer[i] == head[i]);
                        assert(diagnostics_summary@.subrange(0, longer.len() as int)[i] == longer[i]);
                    }
                    assert(diagnostics_summary@.subrange(0, head.len() as int) =~= head);
                }
            }
        }
        DesktopShellState {
            show_editor_view: self.active_view == ActiveView::Editor,
            show_diagnostics_view: self.active_view == ActiveView::Diagnostics,
            show_settings_view: self.active_view == ActiveView::Settings,
            editor_tab_selected: self.active_view == ActiveView::Editor,
            diagnostics_tab_selected: self.active_view == ActiveView::Diagnostics,
            settings_tab_selected: self.active_view == ActiveView::Settings,
            session_directory,
            has_recordings: self.recording_library.recordings.len() > 0,
            recording_titles: build_recording_title_items(&self.recording_library),
            selected_recording_index: match self.recording_library.selected_recording_index {
                Some(index) => index as i32,
                None => -1,
            },
            selected_recording_title,
            selected_recording_details,
            playback_summary,
            playback_checks,
            playback_loop_input_text: self.playback_loop_input_text.clone(),
            event_index_labels,
            event_type_labels,
            event_parameter_labels,
            event_duration_labels,
            filter_key_events_selected: self.event_list_filter.show_key_events,
            filter_mouse_button_events_selected: self.event_list_filter.show_mouse_button_events,
            filter_mouse_wheel_events_selected: self.event_list_filter.show_mouse_wheel_events,
            filter_pointer_move_events_selected: self.event_list_filter.show_pointer_move_events,
            filter_key_event_count_label: decimal_string(counts.key_event_count as u64),
            filter_mouse_button_event_count_label: decimal_string(counts.mouse_button_event_count as u64),
            filter_mouse_wheel_event_count_label: decimal_string(counts.mouse_wheel_event_count as u64),
            filter_pointer_move_event_count_label: decimal_string(counts.pointer_move_event_count as u64),
            stop_hotkey_summary,
            stop_hotkey_control_selected: contains_hotkey_modifier(modifiers, HotkeyModifier::Control),
            stop_hotkey_alt_selected: contains_hotkey_modifier(modifiers, HotkeyModifier::Alt),
            stop_hotkey_shift_selected: contains_hotkey_modifier(modifiers, HotkeyModifier::Shift),
            stop_hotkey_win_selected: contains_hotkey_modifier(modifiers, HotkeyModifier::Win),
            stop_hotkey_key_index: hotkey_key_index(hotkey.key()),
            stop_hotkey_key_label: hotkey.key().display_name().to_owned(),
            can_start_recording: !action_running && !editor_is_dirty,
            can_play_selected_recording: self.editable_recording().is_some() && !action_running
                && !editor_is_dirty,
            can_stop_active_action: action_running,
            can_save_editor_changes: editor_is_dirty && !action_running,
            can_revert_editor_changes: editor_is_dirty && !action_running,
            can_delete_selected_recording: self.recording_library.selected_recording().is_some()
                && !action_running && !editor_is_dirty,
            recording_strategy_raw_selected: self.configuration.recording_strategy
                == RecordingStrategy::RawInput,
            recording_strategy_low_level_selected: self.configuration.recording_strategy
                == RecordingStrategy::LowLevelHooks,
            diagnostics_summary,
            diagnostics_checks,
        }
    }
}

} // verus!
