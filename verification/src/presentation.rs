use vstd::prelude::*;

use crate::diagnostics::{DiagnosticCheck, DiagnosticStatus, EnvironmentDoctorReport};
use crate::editor::EditingSession;
use crate::event::{action_kind, ActionKind, InputAction, InputEvent, MouseButton, ScrollAxis};
use crate::hotkey::HotkeyKey;
use crate::text::{
    chars_of, decimal_string, decimal_text, is_blank, is_blank_chars, joined, push_char, push_str,
    texts_view, trim, trimmed_bounds,
};

verus! {

/// The smallest playback loop count.
pub const MIN_PLAYBACK_LOOP_COUNT: u16 = 1;

/// The largest playback loop count.
pub const MAX_PLAYBACK_LOOP_COUNT: u16 = 9_999;

/// Which kinds of event the event list shows.
#[derive(Debug, Clone, Copy, PartialEq, Eq, Structural)]
pub struct EventListFilter {
    pub show_key_events: bool,
    pub show_mouse_button_events: bool,
    pub show_mouse_wheel_events: bool,
    pub show_pointer_move_events: bool,
}

impl Default for EventListFilter {
    /// Every kind but pointer moves.
    fn default() -> (filter: Self)
        ensures
            filter == (EventListFilter {
                show_key_events: true,
                show_mouse_button_events: true,
                show_mouse_wheel_events: true,
                show_pointer_move_events: false,
            }),
    {
        EventListFilter {
            show_key_events: true,
            show_mouse_button_events: true,
            show_mouse_wheel_events: true,
            show_pointer_move_events: false,
        }
    }
}

/// The filter shows events of this action's kind.
pub open spec fn filter_shows(filter: EventListFilter, action: InputAction) -> bool {
    match action_kind(action) {
        ActionKind::KeyPressed | ActionKind::KeyReleased => filter.show_key_events,
        ActionKind::PointerMoved => filter.show_pointer_move_events,
        ActionKind::MouseButtonPressed | ActionKind::MouseButtonReleased => filter.show_mouse_button_events,
        ActionKind::MouseWheelScrolled => filter.show_mouse_wheel_events,
    }
}

impl EventListFilter {
    /// Reports whether the list shows an event with this action.
    pub fn matches(self, action: &InputAction) -> (shown: bool)
        ensures
            shown == filter_shows(self, *action),
    {
        match action {
            InputAction::KeyPressed { .. } | InputAction::KeyReleased { .. } => self.show_key_events,
            InputAction::PointerMoved { .. } => self.show_pointer_move_events,
            InputAction::MouseButtonPressed { .. } | InputAction::MouseButtonReleased { .. } => {
                self.show_mouse_button_events
            },
            InputAction::MouseWheelScrolled { .. } => self.show_mouse_wheel_events,
        }
    }
}

/// The positions of the events the filter shows, in order.
pub open spec fn shown_positions(events: Seq<InputEvent>, filter: EventListFilter, count: int) -> Seq<usize>
    decreases count,
{
    if count <= 0 {
        Seq::empty()
    } else if filter_shows(filter, events[count - 1].action) {
        shown_positions(events, filter, count - 1).push((count - 1) as usize)
    } else {
        shown_positions(events, filter, count - 1)
    }
}

/// The positions, in the working copy, of the events the list shows.
pub fn visible_event_source_indices(
    editing_session: Option<&EditingSession>,
    filter: EventListFilter,
) -> (indices: Vec<usize>)
    ensures
        indices@ == (match editing_session {
            Some(session) => shown_positions(session.spec_working().1, filter, session.spec_working().1.len() as int),
            None => Seq::empty(),
        }),
{
    let mut indices: Vec<usize> = Vec::new();
    if let Some(session) = editing_session {
        let events = session.working_recording().events();
        let mut index: usize = 0;
        while index < events.len()
            invariant
                index <= events.len(),
                indices@ == shown_positions(events@, filter, index as int),
            decreases events.len() - index,
        {
            if filter.matches(&events[index].action) {
                indices.push(index);
            }
            index += 1;
        }
    }
    indices
}

/// The number of events of each filter group.
#[derive(Debug, Clone, Copy, PartialEq, Eq, Structural)]
pub struct EventFilterCounts {
    pub key_event_count: usize,
    pub mouse_button_event_count: usize,
    pub mouse_wheel_event_count: usize,
    pub pointer_move_event_count: usize,
}

/// The number of events among the first `count` whose kind is one of two kinds.
pub open spec fn group_count(events: Seq<InputEvent>, first: ActionKind, second: ActionKind, count: int) -> nat
    decreases count,
{
    if count <= 0 {
        0
    } else {
        group_count(events, first, second, count - 1) + if action_kind(events[count - 1].action)
            == first || action_kind(events[count - 1].action) == second {
            1nat
        } else {
            0nat
        }
    }
}

proof fn lemma_group_count_bound(events: Seq<InputEvent>, first: ActionKind, second: ActionKind, count: int)
    requires
        0 <= count,
    ensures
        group_count(events, first, second, count) <= count,
    decreases count,
{
    if count > 0 {
        lemma_group_count_bound(events, first, second, count - 1);
    }
}

/// Counts the events of the working copy in each filter group; all zero without
/// a session.
pub fn build_event_filter_counts(editing_session: Option<&EditingSession>) -> (counts: EventFilterCounts)
    ensures
        match editing_session {
            None => counts == (EventFilterCounts {
                key_event_count: 0,
                mouse_button_event_count: 0,
                mouse_wheel_event_count: 0,
                pointer_move_event_count: 0,
            }),
            Some(session) => {
                let events = session.spec_working().1;
                let n = events.len() as int;
                &&& counts.key_event_count == group_count(events, ActionKind::KeyPressed, ActionKind::KeyReleased, n)
                &&& counts.mouse_button_event_count == group_count(events, ActionKind::MouseButtonPressed, ActionKind::MouseButtonReleased, n)
                &&& counts.mouse_wheel_event_count == group_count(events, ActionKind::MouseWheelScrolled, ActionKind::MouseWheelScrolled, n)
                &&& counts.pointer_move_event_count == group_count(events, ActionKind::PointerMoved, ActionKind::PointerMoved, n)
            },
        },
{
    let mut counts = EventFilterCounts {
        key_event_count: 0,
        mouse_button_event_count: 0,
        mouse_wheel_event_count: 0,
        pointer_move_event_count: 0,
    };
    let session = match editing_session {
        None => {
            return counts;
        },
        Some(session) => session,
    };
    let events = session.working_recording().events();
    let mut index: usize = 0;
    while index < events.len()
        invariant
            index <= events.len(),
            counts.key_event_count == group_count(events@, ActionKind::KeyPressed, ActionKind::KeyReleased, index as int),
            counts.mouse_button_event_count == group_count(events@, ActionKind::MouseButtonPressed, ActionKind::MouseButtonReleased, index as int),
            counts.mouse_wheel_event_count == group_count(events@, ActionKind::MouseWheelScrolled, ActionKind::MouseWheelScrolled, index as int),
            counts.pointer_move_event_count == group_count(events@, ActionKind::PointerMoved, ActionKind::PointerMoved, index as int),
        decreases events.len() - index,
    {
        proof {
            lemma_group_count_bound(events@, ActionKind::KeyPressed, ActionKind::KeyReleased, index as int);
            lemma_group_count_bound(events@, ActionKind::MouseButtonPressed, ActionKind::MouseButtonReleased, index as int);
            lemma_group_count_bound(events@, ActionKind::MouseWheelScrolled, ActionKind::MouseWheelScrolled, index as int);
            lemma_group_count_bound(events@, ActionKind::PointerMoved, ActionKind::PointerMoved, index as int);
        }
        match events[index].action {
            InputAction::KeyPressed { .. } | InputAction::KeyReleased { .. } => {
                counts.key_event_count = counts.key_event_count + 1;
            },
            InputAction::PointerMoved { .. } => {
                counts.pointer_move_event_count = counts.pointer_move_event_count + 1;
            },
            InputAction::MouseButtonPressed { .. } | InputAction::MouseButtonReleased { .. } => {
                counts.mouse_button_event_count = counts.mouse_button_event_count + 1;
            },
            InputAction::MouseWheelScrolled { .. } => {
                counts.mouse_wheel_event_count = counts.mouse_wheel_event_count + 1;
            },
        }
        index += 1;
    }
    counts
}

/// The name of a mouse button in the event list.
pub open spec fn mouse_button_name(button: MouseButton) -> Seq<char> {
    match button {
        MouseButton::Left => "Left"@,
        MouseButton::Right => "Right"@,
        MouseButton::Middle => "Middle"@,
        MouseButton::X1 => "X1"@,
        MouseButton::X2 => "X2"@,
    }
}

/// Each mouse button is shown by its own name (`Left`, `Right`, `Middle`,
/// `X1`, `X2`), so two buttons never share a name.
pub proof fn lemma_mouse_button_names(button: MouseButton, other: MouseButton)
    ensures
        button == MouseButton::Left ==> mouse_button_name(button) == "Left"@,
        button == MouseButton::Right ==> mouse_button_name(button) == "Right"@,
        button == MouseButton::Middle ==> mouse_button_name(button) == "Middle"@,
        button == MouseButton::X1 ==> mouse_button_name(button) == "X1"@,
        button == MouseButton::X2 ==> mouse_button_name(button) == "X2"@,
        mouse_button_name(button) == mouse_button_name(other) ==> button == other,
{
    reveal_strlit("Left");
    reveal_strlit("Right");
    reveal_strlit("Middle");
    reveal_strlit("X1");
    reveal_strlit("X2");
    let a = mouse_button_name(button);
    let b = mouse_button_name(other);
    if a == b {
        assert(a.len() == b.len());
        assert(a[0] == b[0]);
        assert(a[a.len() - 1] == b[b.len() - 1]);
    }
}

/// Names a mouse button.
pub fn format_mouse_button(button: MouseButton) -> (name: &'static str)
    ensures
        name@ == mouse_button_name(button),
{
    match button {
        MouseButton::Left => "Left",
        MouseButton::Right => "Right",
        MouseButton::Middle => "Middle",
        MouseButton::X1 => "X1",
        MouseButton::X2 => "X2",
    }
}

/// The name of a scroll axis in the event list.
pub open spec fn scroll_axis_name(axis: ScrollAxis) -> Seq<char> {
    match axis {
        ScrollAxis::Vertical => "Vertical"@,
        ScrollAxis::Horizontal => "Horizontal"@,
    }
}

/// Names a scroll axis.
pub fn format_scroll_axis(axis: ScrollAxis) -> (name: &'static str)
    ensures
        name@ == scroll_axis_name(axis),
{
    match axis {
        ScrollAxis::Vertical => "Vertical",
        ScrollAxis::Horizontal => "Horizontal",
    }
}

/// The decimal text of a signed number, with a leading minus when negative.
pub open spec fn signed_decimal_text(value: int) -> Seq<char> {
    if value < 0 {
        "-"@ + decimal_text((-value) as nat)
    } else {
        decimal_text(value as nat)
    }
}

/// The decimal text of a signed number.
pub fn signed_decimal_string(value: i64) -> (text: String)
    ensures
        text@ == signed_decimal_text(value as int),
{
    if value < 0 {
        let magnitude: u64 = if value == i64::MIN {
            0x8000_0000_0000_0000
        } else {
            (-value) as u64
        };
        let mut text = "-".to_owned();
        let digits = decimal_string(magnitude);
        push_str(&mut text, digits.as_str());
        text
    } else {
        decimal_string(value as u64)
    }
}

/// The type column of an event in the event table.
pub open spec fn table_type_label(action: InputAction) -> Seq<char> {
    match action {
        InputAction::KeyPressed { .. } => "Key Down"@,
        InputAction::KeyReleased { .. } => "Key Up"@,
        InputAction::PointerMoved { .. } => "Mouse Move"@,
        InputAction::MouseButtonPressed { .. } => "Click Down"@,
        InputAction::MouseButtonReleased { .. } => "Click Up"@,
        InputAction::MouseWheelScrolled { delta, .. } => if delta >= 0 {
            "Wheel Up"@
        } else {
            "Wheel Down"@
        },
    }
}

/// Labels an event's type for the event table.
pub fn format_event_table_type_label(action: &InputAction) -> (label: String)
    ensures
        label@ == table_type_label(*action),
{
    match action {
        InputAction::KeyPressed { .. } => "Key Down".to_owned(),
        InputAction::KeyReleased { .. } => "Key Up".to_owned(),
        InputAction::PointerMoved { .. } => "Mouse Move".to_owned(),
        InputAction::MouseButtonPressed { .. } => "Click Down".to_owned(),
        InputAction::MouseButtonReleased { .. } => "Click Up".to_owned(),
        InputAction::MouseWheelScrolled { delta, .. } => {
            if *delta >= 0 {
                "Wheel Up".to_owned()
            } else {
                "Wheel Down".to_owned()
            }
        },
    }
}

/// The one-line label of an event's action.
pub open spec fn action_label(action: InputAction) -> Seq<char> {
    match action {
        InputAction::KeyPressed { .. } => "Key Down"@,
        InputAction::KeyReleased { .. } => "Key Up"@,
        InputAction::PointerMoved { .. } => "Mouse Move"@,
        InputAction::MouseButtonPressed { button } => mouse_button_name(button) + " Down"@,
        InputAction::MouseButtonReleased { button } => mouse_button_name(button) + " Up"@,
        InputAction::MouseWheelScrolled { axis, delta } => scroll_axis_name(axis) + " Wheel "@
            + signed_decimal_text(delta as int),
    }
}

/// Labels an event's action on one line.
pub fn format_event_action_label(action: &InputAction) -> (label: String)
    ensures
        label@ == action_label(*action),
{
    match action {
        InputAction::KeyPressed { .. } => "Key Down".to_owned(),
        InputAction::KeyReleased { .. } => "Key Up".to_owned(),
        InputAction::PointerMoved { .. } => "Mouse Move".to_owned(),
        InputAction::MouseButtonPressed { button } => {
            let mut label = format_mouse_button(*button).to_owned();
            push_str(&mut label, " Down");
            label
        },
        InputAction::MouseButtonReleased { button } => {
            let mut label = format_mouse_button(*button).to_owned();
            push_str(&mut label, " Up");
            label
        },
        InputAction::MouseWheelScrolled { axis, delta } => {
            let mut label = format_scroll_axis(*axis).to_owned();
            push_str(&mut label, " Wheel ");
            let number = signed_decimal_string(*delta as i64);
            push_str(&mut label, number.as_str());
            label
        },
    }
}

/// The type column tells an event's kind apart: a key press reads `Key Down`
/// and a key release `Key Up`, a button press `Click Down` and a button release
/// `Click Up`, a pointer move `Mouse Move`, and a wheel turn `Wheel Up` or
/// `Wheel Down` by its direction. Two actions with the same label are of the
/// same kind, and two wheel turns with the same label turn the same way.
pub proof fn lemma_type_labels_tell_kinds_apart(first: InputAction, second: InputAction)
    ensures
        first is KeyPressed ==> table_type_label(first) == "Key Down"@,
        first is KeyReleased ==> table_type_label(first) == "Key Up"@,
        first is MouseButtonPressed ==> table_type_label(first) == "Click Down"@,
        first is MouseButtonReleased ==> table_type_label(first) == "Click Up"@,
        first is PointerMoved ==> table_type_label(first) == "Mouse Move"@,
        table_type_label(first) == table_type_label(second) ==> action_kind(first) == action_kind(
            second,
        ),
        first is MouseWheelScrolled && second is MouseWheelScrolled && table_type_label(first)
            == table_type_label(second) ==> (first->delta >= 0) == (second->delta >= 0),
{
    reveal_strlit("Key Down");
    reveal_strlit("Key Up");
    reveal_strlit("Mouse Move");
    reveal_strlit("Click Down");
    reveal_strlit("Click Up");
    reveal_strlit("Wheel Up");
    reveal_strlit("Wheel Down");
    let a = table_type_label(first);
    let b = table_type_label(second);
    if a == b {
        assert(a.len() == b.len());
        assert(a[0] == b[0]);
        if a.len() == 8 {
            assert(a[6] == b[6]);
        }
    }
}

/// The one-line action label says what happened: a key press reads `Key Down`
/// and a key release `Key Up`; a button press is the button's name followed by
/// ` Down` and a release by ` Up`, so a press and a release never share a label.
pub proof fn lemma_action_labels_tell_direction(action: InputAction)
    ensures
        action is KeyPressed ==> action_label(action) == "Key Down"@,
        action is KeyReleased ==> action_label(action) == "Key Up"@,
        action matches InputAction::MouseButtonPressed { button } ==> action_label(action)
            == mouse_button_name(button) + " Down"@,
        action matches InputAction::MouseButtonReleased { button } ==> action_label(action)
            == mouse_button_name(button) + " Up"@,
        forall|button: MouseButton|
            #[trigger] action_label(InputAction::MouseButtonPressed { button }) != action_label(
                InputAction::MouseButtonReleased { button },
            ),
{
    reveal_strlit(" Down");
    reveal_strlit(" Up");
    assert forall|button: MouseButton|
        #[trigger] action_label(InputAction::MouseButtonPressed { button }) != action_label(
            InputAction::MouseButtonReleased { button },
        ) by {
        let name = mouse_button_name(button);
        assert((name + " Down"@).len() != (name + " Up"@).len());
    }
}

/// The parameter column of an event in the event table: the key's name (when not
/// blank) and scan code, with `ext` for extended keys; the pointer position; the
/// mouse button; or the wheel axis, direction and rotation.
pub open spec fn table_parameter_label(action: InputAction) -> Seq<char> {
    match action {
        InputAction::KeyPressed { key } | InputAction::KeyReleased { key } => {
            let base = match key.logical_name {
                Some(name) => if !is_blank(name@) {
                    name@ + " · scan "@ + decimal_text(key.scan_code.code() as nat)
                } else {
                    "scan "@ + decimal_text(key.scan_code.code() as nat)
                },
                None => "scan "@ + decimal_text(key.scan_code.code() as nat),
            };
            if key.extended {
                base + " · ext"@
            } else {
                base
            }
        },
        InputAction::PointerMoved { position } => "("@ + signed_decimal_text(position.absolute.x as int)
            + ", "@ + signed_decimal_text(position.absolute.y as int) + ")"@,
        InputAction::MouseButtonPressed { button } | InputAction::MouseButtonReleased { button } =>
            mouse_button_name(button),
        InputAction::MouseWheelScrolled { axis, delta } => scroll_axis_name(axis) + " "@ + (if delta
            >= 0 {
            "up"@
        } else {
            "down"@
        }) + " ("@ + signed_decimal_text(delta as int) + ")"@,
    }
}

fn key_parameter_label(key: &crate::event::KeyDescriptor) -> (label: String)
    ensures
        label@ == table_parameter_label(InputAction::KeyPressed { key: *key }),
{
    let scan = decimal_string(key.scan_code.get() as u64);
    let mut label = match &key.logical_name {
        Some(name) => {
            let chars = chars_of(name.as_str());
            if !is_blank_chars(chars.as_slice()) {
                let mut label = name.clone();
                push_str(&mut label, " · scan ");
                push_str(&mut label, scan.as_str());
                label
            } else {
                let mut label = "scan ".to_owned();
                push_str(&mut label, scan.as_str());
                label
            }
        },
        None => {
            let mut label = "scan ".to_owned();
            push_str(&mut label, scan.as_str());
            label
        },
    };
    if key.extended {
        push_str(&mut label, " · ext");
    }
    label
}

/// Labels an event's parameters for the event table.
pub fn format_event_table_parameter_label(action: &InputAction) -> (label: String)
    ensures
        label@ == table_parameter_label(*action),
{
    match action {
        InputAction::KeyPressed { key } => key_parameter_label(key),
        InputAction::KeyReleased { key } => key_parameter_label(key),
        InputAction::PointerMoved { position } => {
            let mut label = "(".to_owned();
            let x = signed_decimal_string(position.absolute.x as i64);
            push_str(&mut label, x.as_str());
            push_str(&mut label, ", ");
            let y = signed_decimal_string(position.absolute.y as i64);
            push_str(&mut label, y.as_str());
            push_str(&mut label, ")");
            label
        },
        InputAction::MouseButtonPressed { button } => format_mouse_button(*button).to_owned(),
        InputAction::MouseButtonReleased { button } => format_mouse_button(*button).to_owned(),
        InputAction::MouseWheelScrolled { axis, delta } => {
            let mut label = format_scroll_axis(*axis).to_owned();
            push_str(&mut label, " ");
            if *delta >= 0 {
                push_str(&mut label, "up");
            } else {
                push_str(&mut label, "down");
            }
            push_str(&mut label, " (");
            let number = signed_decimal_string(*delta as i64);
            push_str(&mut label, number.as_str());
            push_str(&mut label, ")");
            label
        },
    }
}

/// The decimal text of a number, padded with leading zeros to `width` digits.
pub open spec fn padded_decimal_text(value: nat, width: nat) -> Seq<char> {
    let digits = decimal_text(value);
    if digits.len() < width {
        Seq::new((width - digits.len()) as nat, |i: int| '0') + digits
    } else {
        digits
    }
}

/// The decimal text of a number, padded with leading zeros to `width` digits.
pub fn padded_decimal_string(value: u64, width: usize) -> (text: String)
    ensures
        text@ == padded_decimal_text(value as nat, width as nat),
{
    let digits = decimal_string(value);
    let length = digits.as_str().unicode_len();
    let mut text = String::new();
    let mut written: usize = length;
    while written < width
        invariant
            length <= written <= width || (written == length && width < length),
            digits@.len() == length,
            text@ == Seq::new((written - length) as nat, |i: int| '0'),
        decreases width - written,
    {
        push_char(&mut text, '0');
        written += 1;
        assert(text@ =~= Seq::new((written - length) as nat, |i: int| '0'));
    }
    push_str(&mut text, digits.as_str());
    assert(text@ =~= padded_decimal_text(value as nat, width as nat));
    text
}

/// The clock text of an elapsed time: hours, minutes and seconds of two digits
/// and milliseconds of three, such as `00:01:02.345`.
pub open spec fn elapsed_clock_text(micros: u64) -> Seq<char> {
    let total_millis = micros / 1000;
    let total_seconds = total_millis / 1000;
    let total_minutes = total_seconds / 60;
    padded_decimal_text((total_minutes / 60) as nat, 2) + ":"@ + padded_decimal_text(
        (total_minutes % 60) as nat,
        2,
    ) + ":"@ + padded_decimal_text((total_seconds % 60) as nat, 2) + "."@ + padded_decimal_text(
        (total_millis % 1000) as nat,
        3,
    )
}

/// Renders an elapsed time as a clock.
pub fn format_elapsed_clock(micros: u64) -> (text: String)
    ensures
        text@ == elapsed_clock_text(micros),
{
    let total_millis = micros / 1_000;
    let millis = total_millis % 1_000;
    let total_seconds = total_millis / 1_000;
    let seconds = total_seconds % 60;
    let total_minutes = total_seconds / 60;
    let minutes = total_minutes % 60;
    let hours = total_minutes / 60;
    let mut text = padded_decimal_string(hours, 2);
    push_str(&mut text, ":");
    let minutes_text = padded_decimal_string(minutes, 2);
    push_str(&mut text, minutes_text.as_str());
    push_str(&mut text, ":");
    let seconds_text = padded_decimal_string(seconds, 2);
    push_str(&mut text, seconds_text.as_str());
    push_str(&mut text, ".");
    let millis_text = padded_decimal_string(millis, 3);
    push_str(&mut text, millis_text.as_str());
    assert(text@ =~= elapsed_clock_text(micros));
    text
}

/// The lower-case name of a diagnostic status.
pub open spec fn status_name(status: DiagnosticStatus) -> Seq<char> {
    match status {
        DiagnosticStatus::Pass => "pass"@,
        DiagnosticStatus::Warn => "warn"@,
        DiagnosticStatus::Fail => "fail"@,
    }
}

/// Names a diagnostic status.
pub fn format_diagnostic_status(status: DiagnosticStatus) -> (name: &'static str)
    ensures
        name@ == status_name(status),
{
    match status {
        DiagnosticStatus::Pass => "pass",
        DiagnosticStatus::Warn => "warn",
        DiagnosticStatus::Fail => "fail",
    }
}

/// The line that reports a check: `[status] name: summary`.
pub open spec fn issue_line(check: DiagnosticCheck) -> Seq<char> {
    "["@ + status_name(check.status) + "] "@ + check.name@ + ": "@ + check.summary@
}

/// The lines of the checks that did not pass, in order.
pub open spec fn issue_lines(checks: Seq<DiagnosticCheck>) -> Seq<Seq<char>>
    decreases checks.len(),
{
    if checks.len() == 0 {
        Seq::empty()
    } else if checks.last().status != DiagnosticStatus::Pass {
        issue_lines(checks.drop_last()).push(issue_line(checks.last()))
    } else {
        issue_lines(checks.drop_last())
    }
}

/// The report of the checks that did not pass, one line each, or the given
/// message when all passed.
pub open spec fn issues_text(checks: Seq<DiagnosticCheck>, empty_message: Seq<char>) -> Seq<char> {
    if issue_lines(checks).len() == 0 {
        empty_message
    } else {
        joined(issue_lines(checks), "\n"@)
    }
}

/// Lists the checks that did not pass, one per line, or `empty_message` when
/// every check passed.
pub fn build_issue_lines(checks: &[DiagnosticCheck], empty_message: &str) -> (text: String)
    ensures
        text@ == issues_text(checks@, empty_message@),
{
    let mut text = String::new();
    let mut found: usize = 0;
    let mut index: usize = 0;
    while index < checks.len()
        invariant
            index <= checks.len(),
            found == issue_lines(checks@.subrange(0, index as int)).len(),
            text@ == joined(issue_lines(checks@.subrange(0, index as int)), "\n"@),
        decreases checks.len() - index,
    {
        let ghost prefix = checks@.subrange(0, index + 1);
        proof {
            assert(prefix.drop_last() =~= checks@.subrange(0, index as int));
            lemma_issue_lines_bound(checks@.subrange(0, index as int));
        }
        let check = &checks[index];
        if check.status != DiagnosticStatus::Pass {
            let ghost lines = issue_lines(checks@.subrange(0, index as int));
            if found > 0 {
                push_str(&mut text, "\n");
            }
            push_str(&mut text, "[");
            push_str(&mut text, format_diagnostic_status(check.status));
            push_str(&mut text, "] ");
            push_str(&mut text, check.name.as_str());
            push_str(&mut text, ": ");
            push_str(&mut text, check.summary.as_str());
            proof {
                let line = issue_line(*check);
                let longer = lines.push(line);
                assert(longer.drop_last() =~= lines);
                if lines.len() == 0 {
                    assert(text@ =~= line);
                } else {
                    assert(text@ =~= joined(lines, "\n"@) + "\n"@ + line);
                }
            }
            found = found + 1;
        }
        index += 1;
    }
    assert(checks@.subrange(0, checks.len() as int) =~= checks@);
    if found == 0 {
        return empty_message.to_owned();
    }
    text
}

proof fn lemma_issue_lines_bound(checks: Seq<DiagnosticCheck>)
    ensures
        issue_lines(checks).len() <= checks.len(),
    decreases checks.len(),
{
    if checks.len() > 0 {
        lemma_issue_lines_bound(checks.drop_last());
    }
}

/// The diagnostics text: the playback summary and checks, then the environment
/// checks that did not pass.
pub open spec fn diagnostic_checks_text(
    checks: Seq<DiagnosticCheck>,
    playback_summary: Seq<char>,
    playback_checks: Seq<char>,
) -> Seq<char> {
    "Playback\n"@ + playback_summary + "\n"@ + playback_checks + "\n\nEnvironment\n"@ + issues_text(
        checks,
        "No environment warnings or failures."@,
    )
}

/// Renders the diagnostics panel text.
pub fn build_diagnostic_checks_text(
    report: &EnvironmentDoctorReport,
    playback_summary: &str,
    playback_checks: &str,
) -> (text: String)
    ensures
        text@ == diagnostic_checks_text(report.checks@, playback_summary@, playback_checks@),
{
    let environment_issues = build_issue_lines(
        report.checks.as_slice(),
        "No environment warnings or failures.",
    );
    let mut text = "Playback\n".to_owned();
    push_str(&mut text, playback_summary);
    push_str(&mut text, "\n");
    push_str(&mut text, playback_checks);
    push_str(&mut text, "\n\nEnvironment\n");
    push_str(&mut text, environment_issues.as_str());
    assert(text@ =~= diagnostic_checks_text(report.checks@, playback_summary@, playback_checks@));
    text
}

/// The first check with the given name, if any.
pub open spec fn first_named(checks: Seq<DiagnosticCheck>, name: Seq<char>, count: int) -> Option<DiagnosticCheck>
    decreases count,
{
    if count <= 0 {
        None
    } else {
        match first_named(checks, name, count - 1) {
            Some(check) => Some(check),
            None => if checks[count - 1].name@ == name {
                Some(checks[count - 1])
            } else {
                None
            },
        }
    }
}

/// The short elevation status the settings panel shows, from the environment
/// report's elevation check.
pub open spec fn elevation_status_text(checks: Seq<DiagnosticCheck>) -> Seq<char> {
    match first_named(checks, "process_elevation"@, checks.len() as int) {
        Some(check) => match check.status {
            DiagnosticStatus::Pass => "process elevated"@,
            DiagnosticStatus::Warn => "process not elevated"@,
            DiagnosticStatus::Fail => "elevation status unavailable"@,
        },
        None => "elevation status unavailable"@,
    }
}

/// Summarizes the process elevation check of an environment report.
pub fn compact_process_elevation_status(report: &EnvironmentDoctorReport) -> (text: String)
    ensures
        text@ == elevation_status_text(report.checks@),
{
    let wanted = "process_elevation".to_owned();
    let mut index: usize = 0;
    while index < report.checks.len()
        invariant
            index <= report.checks.len(),
            wanted@ == "process_elevation"@,
            first_named(report.checks@, "process_elevation"@, index as int) is None,
        decreases report.checks.len() - index,
    {
        let check = &report.checks[index];
        if check.name == wanted {
            proof {
                assert(first_named(report.checks@, "process_elevation"@, index + 1) == Some(*check));
                lemma_first_named_settled(report.checks@, "process_elevation"@, index + 1);
            }
            return match check.status {
                DiagnosticStatus::Pass => "process elevated".to_owned(),
                DiagnosticStatus::Warn => "process not elevated".to_owned(),
                DiagnosticStatus::Fail => "elevation status unavailable".to_owned(),
            };
        }
        index += 1;
    }
    "elevation status unavailable".to_owned()
}

proof fn lemma_first_named_settled(checks: Seq<DiagnosticCheck>, name: Seq<char>, count: int)
    requires
        0 <= count <= checks.len(),
        first_named(checks, name, count) is Some,
    ensures
        first_named(checks, name, checks.len() as int) == first_named(checks, name, count),
    decreases checks.len() - count,
{
    if count < checks.len() {
        lemma_first_named_settled(checks, name, count + 1);
    }
}

/// The loop count a parsed number selects: at least one and at most 9999.
pub open spec fn normalized_loop_count(parsed: i32) -> u16 {
    if parsed <= MIN_PLAYBACK_LOOP_COUNT {
        MIN_PLAYBACK_LOOP_COUNT
    } else if parsed >= MAX_PLAYBACK_LOOP_COUNT {
        MAX_PLAYBACK_LOOP_COUNT
    } else {
        parsed as u16
    }
}

/// Clamps a parsed loop count to the supported range.
pub fn normalize_playback_loop_count(parsed_loop_count: i32) -> (count: u16)
    ensures
        count == normalized_loop_count(parsed_loop_count),
{
    if parsed_loop_count <= 1 {
        MIN_PLAYBACK_LOOP_COUNT
    } else if parsed_loop_count >= 9_999 {
        MAX_PLAYBACK_LOOP_COUNT
    } else {
        parsed_loop_count as u16
    }
}

/// The loop count as the input box shows it.
pub fn format_playback_loop_input(loop_count: u16) -> (text: String)
    ensures
        text@ == decimal_text(loop_count as nat),
{
    decimal_string(loop_count as u64)
}

/// An ASCII decimal digit.
pub open spec fn is_digit(c: char) -> bool {
    '0' <= c <= '9'
}

/// The value of a run of decimal digits.
pub open spec fn digits_value(digits: Seq<char>) -> nat
    decreases digits.len(),
{
    if digits.len() == 0 {
        0
    } else {
        digits_value(digits.drop_last()) * 10 + ((digits.last() as u32) - ('0' as u32)) as nat
    }
}

/// The text without a leading sign.
pub open spec fn unsigned_part(text: Seq<char>) -> Seq<char> {
    if text.len() > 0 && (text[0] == '-' || text[0] == '+') {
        text.subrange(1, text.len() as int)
    } else {
        text
    }
}

/// Every character is a decimal digit.
pub open spec fn all_digits(text: Seq<char>) -> bool {
    forall|i: int| 0 <= i < text.len() ==> is_digit(#[trigger] text[i])
}

/// The number a text holds as `str::parse::<i32>` reads it: an optional sign
/// and at least one decimal digit, within the range of `i32`.
pub open spec fn parsed_i32(text: Seq<char>) -> Option<i32> {
    let negative = text.len() > 0 && text[0] == '-';
    let body = unsigned_part(text);
    if body.len() == 0 || !all_digits(body) {
        None
    } else {
        let value: int = if negative {
            -(digits_value(body) as int)
        } else {
            digits_value(body) as int
        };
        if i32::MIN <= value <= i32::MAX {
            Some(value as i32)
        } else {
            None
        }
    }
}

proof fn lemma_digits_value_grows(digits: Seq<char>, count: int)
    requires
        0 <= count <= digits.len(),
        all_digits(digits),
    ensures
        digits_value(digits.subrange(0, count)) <= digits_value(digits),
    decreases digits.len() - count,
{
    if count < digits.len() {
        lemma_digits_value_grows(digits, count + 1);
        let longer = digits.subrange(0, count + 1);
        assert(longer.drop_last() =~= digits.subrange(0, count));
        assert(is_digit(digits[count]));
    } else {
        assert(digits.subrange(0, count) =~= digits);
    }
}

/// Reads a signed 32-bit decimal number as `str::parse::<i32>` does.
pub fn parse_i32(text: &[char]) -> (value: Option<i32>)
    ensures
        value == parsed_i32(text@),
{
    let mut start: usize = 0;
    let mut negative = false;
    if text.len() > 0 && (text[0] == '-' || text[0] == '+') {
        negative = text[0] == '-';
        start = 1;
    }
    let ghost body = unsigned_part(text@);
    if start == text.len() {
        return None;
    }
    let limit: u64 = if negative {
        0x8000_0000
    } else {
        0x7FFF_FFFF
    };
    let mut value: u64 = 0;
    let mut index: usize = start;
    while index < text.len()
        invariant
            start <= index <= text.len(),
            start < text.len(),
            start == (if text@.len() > 0 && (text@[0] == '-' || text@[0] == '+') {
                1usize
            } else {
                0usize
            }),
            negative == (text@.len() > 0 && text@[0] == '-'),
            limit == (if negative {
                0x8000_0000u64
            } else {
                0x7FFF_FFFFu64
            }),
            body == text@.subrange(start as int, text@.len() as int),
            value <= limit,
            limit <= 0x8000_0000,
            value == digits_value(body.subrange(0, index - start)),
            forall|i: int| 0 <= i < index - start ==> is_digit(#[trigger] body[i]),
        decreases text.len() - index,
    {
        let c = text[index];
        assert(body[index - start] == c);
        if !('0' <= c && c <= '9') {
            assert(!is_digit(body[index - start]));
            assert(!all_digits(body));
            return None;
        }
        let digit = (c as u32 - '0' as u32) as u64;
        let ghost prefix = body.subrange(0, index - start + 1);
        assert(prefix.drop_last() =~= body.subrange(0, index - start));
        let next = value * 10 + digit;
        assert(prefix.last() == c);
        assert(digits_value(prefix) == next);
        index += 1;
        if next > limit {
            proof {
                assert(digits_value(prefix) == next);
                assert(prefix == body.subrange(0, index - start));
                if all_digits(body) {
                    lemma_digits_value_grows(body, index - start);
                    assert(digits_value(body) > limit);
                    assert(body.len() > 0);
                    if negative {
                        assert(-(digits_value(body) as int) < i32::MIN);
                    } else {
                        assert(digits_value(body) as int > i32::MAX);
                    }
                }
                assert(unsigned_part(text@) == body);
                assert((text@.len() > 0 && text@[0] == '-') == negative);
                if all_digits(body) {
                    let v: int = if negative { -(digits_value(body) as int) } else { digits_value(body) as int };
                    assert(!(i32::MIN <= v <= i32::MAX));
                }
                assert(parsed_i32(text@) is None);
            }
            return None;
        }
        value = next;
    }
    assert(body.subrange(0, body.len() as int) =~= body);
    if negative {
        Some((0 - (value as i64)) as i32)
    } else {
        Some(value as i32)
    }
}

/// The loop count an input box text selects: none for blank or unreadable
/// text, otherwise the trimmed number clamped to the supported range.
pub open spec fn loop_input_count(input: Seq<char>) -> Option<u16> {
    if trim(input).len() == 0 {
        None
    } else {
        match parsed_i32(trim(input)) {
            Some(parsed) => Some(normalized_loop_count(parsed)),
            None => None,
        }
    }
}

/// Reads the loop count typed into the input box.
pub fn clamp_playback_loop_input(input: &str) -> (count: Option<u16>)
    ensures
        count == loop_input_count(input@),
{
    let chars = chars_of(input);
    let (start, end) = trimmed_bounds(chars.as_slice());
    let trimmed = crate::text::copy_range(chars.as_slice(), start, end);
    if trimmed.len() == 0 {
        return None;
    }
    match parse_i32(trimmed.as_slice()) {
        Some(parsed) => Some(normalize_playback_loop_count(parsed)),
        None => None,
    }
}

/// The hotkey keys in the order the settings list shows them.
pub open spec fn hotkey_key_option(index: int) -> Option<HotkeyKey> {
    if index == 0 {
        Some(HotkeyKey::Escape)
    } else if index == 1 {
        Some(HotkeyKey::F1)
    } else if index == 2 {
        Some(HotkeyKey::F2)
    } else if index == 3 {
        Some(HotkeyKey::F3)
    } else if index == 4 {
        Some(HotkeyKey::F4)
    } else if index == 5 {
        Some(HotkeyKey::F5)
    } else if index == 6 {
        Some(HotkeyKey::F6)
    } else if index == 7 {
        Some(HotkeyKey::F7)
    } else if index == 8 {
        Some(HotkeyKey::F8)
    } else if index == 9 {
        Some(HotkeyKey::F9)
    } else if index == 10 {
        Some(HotkeyKey::F10)
    } else if index == 11 {
        Some(HotkeyKey::F11)
    } else if index == 12 {
        Some(HotkeyKey::F12)
    } else {
        None
    }
}

/// The position of a key in the settings list.
pub fn hotkey_key_index(key: HotkeyKey) -> (index: i32)
    ensures
        hotkey_key_option(index as int) == Some(key),
{
    match key {
        HotkeyKey::Escape => 0,
        HotkeyKey::F1 => 1,
        HotkeyKey::F2 => 2,
        HotkeyKey::F3 => 3,
        HotkeyKey::F4 => 4,
        HotkeyKey::F5 => 5,
        HotkeyKey::F6 => 6,
        HotkeyKey::F7 => 7,
        HotkeyKey::F8 => 8,
        HotkeyKey::F9 => 9,
        HotkeyKey::F10 => 10,
        HotkeyKey::F11 => 11,
        HotkeyKey::F12 => 12,
    }
}

/// The key at a position of the settings list, if the position is in range.
pub fn hotkey_key_from_index(index: i32) -> (key: Option<HotkeyKey>)
    ensures
        key == hotkey_key_option(index as int),
{
    if index == 0 {
        Some(HotkeyKey::Escape)
    } else if index == 1 {
        Some(HotkeyKey::F1)
    } else if index == 2 {
        Some(HotkeyKey::F2)
    } else if index == 3 {
        Some(HotkeyKey::F3)
    } else if index == 4 {
        Some(HotkeyKey::F4)
    } else if index == 5 {
        Some(HotkeyKey::F5)
    } else if index == 6 {
        Some(HotkeyKey::F6)
    } else if index == 7 {
        Some(HotkeyKey::F7)
    } else if index == 8 {
        Some(HotkeyKey::F8)
    } else if index == 9 {
        Some(HotkeyKey::F9)
    } else if index == 10 {
        Some(HotkeyKey::F10)
    } else if index == 11 {
        Some(HotkeyKey::F11)
    } else if index == 12 {
        Some(HotkeyKey::F12)
    } else {
        None
    }
}

/// The position of a key in the settings list leads back to the key.
pub proof fn lemma_hotkey_key_index_round_trip(key: HotkeyKey)
    ensures
        exists|index: int| 0 <= index < 13 && hotkey_key_option(index) == Some(key),
{
    let index: int = match key {
        HotkeyKey::Escape => 0,
        HotkeyKey::F1 => 1,
        HotkeyKey::F2 => 2,
        HotkeyKey::F3 => 3,
        HotkeyKey::F4 => 4,
        HotkeyKey::F5 => 5,
        HotkeyKey::F6 => 6,
        HotkeyKey::F7 => 7,
        HotkeyKey::F8 => 8,
        HotkeyKey::F9 => 9,
        HotkeyKey::F10 => 10,
        HotkeyKey::F11 => 11,
        HotkeyKey::F12 => 12,
    };
    assert(hotkey_key_option(index) == Some(key));
}

/// One row of the event list: the event's position in the working copy and
/// the texts of its columns.
#[derive(Debug, Clone, PartialEq, Eq)]
pub struct VisibleEventRow {
    pub source_event_index: usize,
    pub index_label: String,
    pub type_label: String,
    pub parameter_label: String,
    pub duration_label: String,
}

/// `row` shows the event at `index` of `events`: its number counted from one,
/// its type, its parameters and its time.
pub open spec fn row_shows(row: VisibleEventRow, events: Seq<InputEvent>, index: usize) -> bool {
    &&& row.source_event_index == index
    &&& row.index_label@ == decimal_text((index + 1) as nat)
    &&& row.type_label@ == table_type_label(events[index as int].action)
    &&& row.parameter_label@ == table_parameter_label(events[index as int].action)
    &&& row.duration_label@ == elapsed_clock_text(events[index as int].elapsed_time.micros())
}

proof fn lemma_shown_positions_below(events: Seq<InputEvent>, filter: EventListFilter, count: int)
    requires
        0 <= count <= events.len(),
    ensures
        forall|k: int|
            0 <= k < shown_positions(events, filter, count).len() ==> shown_positions(
                events,
                filter,
                count,
            )[k] < count,
    decreases count,
{
    if count > 0 {
        lemma_shown_positions_below(events, filter, count - 1);
        let before = shown_positions(events, filter, count - 1);
        let after = shown_positions(events, filter, count);
        assert forall|k: int| 0 <= k < after.len() implies after[k] < count by {
            if k < before.len() {
                assert(after[k] == before[k]);
            }
        }
    }
}

/// The rows of the event list: one per event the filter shows, in order.
pub fn build_visible_event_rows(editing_session: Option<&EditingSession>, filter: EventListFilter) -> (rows:
    Vec<VisibleEventRow>)
    ensures
        match editing_session {
            Some(session) => {
                let events = session.spec_working().1;
                let positions = shown_positions(events, filter, events.len() as int);
                &&& rows@.len() == positions.len()
                &&& forall|k: int| 0 <= k < rows@.len() ==> row_shows(#[trigger] rows@[k], events, positions[k])
            },
            None => rows@.len() == 0,
        },
{
    let mut rows: Vec<VisibleEventRow> = Vec::new();
    if let Some(session) = editing_session {
        let events = session.working_recording().events();
        let mut index: usize = 0;
        while index < events.len()
            invariant
                index <= events.len(),
                rows@.len() == shown_positions(events@, filter, index as int).len(),
                forall|k: int|
                    0 <= k < rows@.len() ==> row_shows(
                        #[trigger] rows@[k],
                        events@,
                        shown_positions(events@, filter, index as int)[k],
                    ),
            decreases events.len() - index,
        {
            let ghost before = rows@;
            if filter.matches(&events[index].action) {
                let event = &events[index];
                let row = VisibleEventRow {
                    source_event_index: index,
                    index_label: decimal_string(index as u64 + 1),
                    type_label: format_event_table_type_label(&event.action),
                    parameter_label: format_event_table_parameter_label(&event.action),
                    duration_label: format_elapsed_clock(event.elapsed_time.as_micros()),
                };
                rows.push(row);
                proof {
                    assert forall|k: int| 0 <= k < rows@.len() implies row_shows(
                        #[trigger] rows@[k],
                        events@,
                        shown_positions(events@, filter, index + 1)[k],
                    ) by {
                        if k < before.len() {
                            assert(rows@[k] == before[k]);
                        }
                    }
                }
            }
            index += 1;
        }
    }
    rows
}

/// What the event table shows in place of rows: nothing to show without a
/// session, for an empty recording, or when the filter hides every event.
pub open spec fn table_placeholder(session: Option<Seq<InputEvent>>, row_count: nat) -> Option<
    (Seq<char>, Seq<char>),
> {
    match session {
        None => Some(
            (
                "No session"@,
                "Select a session from the library to inspect or edit its event stream."@,
            ),
        ),
        Some(events) => if events.len() == 0 {
            Some(("No events"@, "This session is empty. Record new input or load another session."@))
        } else if row_count == 0 {
            Some(
                (
                    "No matches"@,
                    "Mouse moves are hidden by default. Enable more filters to show additional events."@,
                ),
            )
        } else {
            None
        },
    }
}

/// The working copy's events of an optional session.
pub open spec fn session_events(editing_session: Option<&EditingSession>) -> Option<Seq<InputEvent>> {
    match editing_session {
        Some(session) => Some(session.spec_working().1),
        None => None,
    }
}

fn event_table_placeholder(editing_session: Option<&EditingSession>, visible_event_rows: &[VisibleEventRow]) -> (placeholder:
    Option<(&'static str, &'static str)>)
    ensures
        match placeholder {
            Some((title, detail)) => table_placeholder(
                session_events(editing_session),
                visible_event_rows@.len(),
            ) == Some((title@, detail@)),
            None => table_placeholder(session_events(editing_session), visible_event_rows@.len())
                is None,
        },
{
    let session = match editing_session {
        None => {
            return Some(
                ("No session", "Select a session from the library to inspect or edit its event stream."),
            );
        },
        Some(session) => session,
    };
    if session.working_recording().event_count() == 0 {
        return Some(("No events", "This session is empty. Record new input or load another session."));
    }
    if visible_event_rows.len() == 0 {
        return Some(
            (
                "No matches",
                "Mouse moves are hidden by default. Enable more filters to show additional events.",
            ),
        );
    }
    None
}

/// One column of the event table: the placeholder text when there are no rows
/// to show, otherwise the column of each row.
pub open spec fn table_column(
    placeholder: Option<(Seq<char>, Seq<char>)>,
    filler: Seq<char>,
    cells: Seq<Seq<char>>,
) -> Seq<Seq<char>> {
    if placeholder is Some {
        seq![filler]
    } else {
        cells
    }
}

/// The number column of the event table.
pub fn build_event_index_items(editing_session: Option<&EditingSession>, visible_event_rows: &[VisibleEventRow]) -> (items:
    Vec<String>)
    ensures
        texts_view(items@) == table_column(
            table_placeholder(session_events(editing_session), visible_event_rows@.len()),
            Seq::empty(),
            Seq::new(visible_event_rows@.len(), |k: int| visible_event_rows@[k].index_label@),
        ),
{
    if event_table_placeholder(editing_session, visible_event_rows).is_some() {
        let items = vec![String::new()];
        assert(texts_view(items@) =~= seq![Seq::<char>::empty()]);
        return items;
    }
    let mut items: Vec<String> = Vec::new();
    let mut index: usize = 0;
    while index < visible_event_rows.len()
        invariant
            index <= visible_event_rows.len(),
            items@.len() == index,
            forall|k: int| 0 <= k < index ==> #[trigger] items@[k]@ == visible_event_rows@[k].index_label@,
        decreases visible_event_rows.len() - index,
    {
        let cell = visible_event_rows[index].index_label.clone();
        assert(cell@ == visible_event_rows@[index as int].index_label@);
        items.push(cell);
        index += 1;
    }
    assert(texts_view(items@) =~= Seq::new(visible_event_rows@.len(), |k: int| visible_event_rows@[k].index_label@));
    items
}

/// The type column of the event table.
pub fn build_event_type_items(editing_session: Option<&EditingSession>, visible_event_rows: &[VisibleEventRow]) -> (items:
    Vec<String>)
    ensures
        texts_view(items@) == (match table_placeholder(session_events(editing_session), visible_event_rows@.len()) {
            Some((title, _)) => seq![title],
            None => Seq::new(visible_event_rows@.len(), |k: int| visible_event_rows@[k].type_label@),
        }),
{
    if let Some((title, _)) = event_table_placeholder(editing_session, visible_event_rows) {
        let items = vec![title.to_owned()];
        assert(texts_view(items@) =~= seq![title@]);
        return items;
    }
    let mut items: Vec<String> = Vec::new();
    let mut index: usize = 0;
    while index < visible_event_rows.len()
        invariant
            index <= visible_event_rows.len(),
            items@.len() == index,
            forall|k: int| 0 <= k < index ==> #[trigger] items@[k]@ == visible_event_rows@[k].type_label@,
        decreases visible_event_rows.len() - index,
    {
        let cell = visible_event_rows[index].type_label.clone();
        assert(cell@ == visible_event_rows@[index as int].type_label@);
        items.push(cell);
        index += 1;
    }
    assert(texts_view(items@) =~= Seq::new(visible_event_rows@.len(), |k: int| visible_event_rows@[k].type_label@));
    items
}

/// The parameter column of the event table.
pub fn build_event_parameter_items(editing_session: Option<&EditingSession>, visible_event_rows: &[VisibleEventRow]) -> (items:
    Vec<String>)
    ensures
        texts_view(items@) == (match table_placeholder(session_events(editing_session), visible_event_rows@.len()) {
            Some((_, detail)) => seq![detail],
            None => Seq::new(visible_event_rows@.len(), |k: int| visible_event_rows@[k].parameter_label@),
        }),
{
    if let Some((_, detail)) = event_table_placeholder(editing_session, visible_event_rows) {
        let items = vec![detail.to_owned()];
        assert(texts_view(items@) =~= seq![detail@]);
        return items;
    }
    let mut items: Vec<String> = Vec::new();
    let mut index: usize = 0;
    while index < visible_event_rows.len()
        invariant
            index <= visible_event_rows.len(),
            items@.len() == index,
            forall|k: int| 0 <= k < index ==> #[trigger] items@[k]@ == visible_event_rows@[k].parameter_label@,
        decreases visible_event_rows.len() - index,
    {
        let cell = visible_event_rows[index].parameter_label.clone();
        assert(cell@ == visible_event_rows@[index as int].parameter_label@);
        items.push(cell);
        index += 1;
    }
    assert(texts_view(items@) =~= Seq::new(visible_event_rows@.len(), |k: int| visible_event_rows@[k].parameter_label@));
    items
}

/// The time column of the event table.
pub fn build_event_duration_items(editing_session: Option<&EditingSession>, visible_event_rows: &[VisibleEventRow]) -> (items:
    Vec<String>)
    ensures
        texts_view(items@) == table_column(
            table_placeholder(session_events(editing_session), visible_event_rows@.len()),
            Seq::empty(),
            Seq::new(visible_event_rows@.len(), |k: int| visible_event_rows@[k].duration_label@),
        ),
{
    if event_table_placeholder(editing_session, visible_event_rows).is_some() {
        let items = vec![String::new()];
        assert(texts_view(items@) =~= seq![Seq::<char>::empty()]);
        return items;
    }
    let mut items: Vec<String> = Vec::new();
    let mut index: usize = 0;
    while index < visible_event_rows.len()
        invariant
            index <= visible_event_rows.len(),
            items@.len() == index,
            forall|k: int| 0 <= k < index ==> #[trigger] items@[k]@ == visible_event_rows@[k].duration_label@,
        decreases visible_event_rows.len() - index,
    {
        let cell = visible_event_rows[index].duration_label.clone();
        assert(cell@ == visible_event_rows@[index as int].duration_label@);
        items.push(cell);
        index += 1;
    }
    assert(texts_view(items@) =~= Seq::new(visible_event_rows@.len(), |k: int| visible_event_rows@[k].duration_label@));
    items
}

} // verus!
