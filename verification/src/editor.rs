use vstd::prelude::*;

use crate::event::{
    action_kind, optional_text_copy, optional_text_equals, optional_text_view, ActionKind,
    EventOffset, InputAction, InputEvent, MonitorDescriptor,
};
use crate::recording::{
    duplicate_display, events_in_order, lemma_events_error_none, metadata_error, recording_error,
    Recording, RecordingMetadata, RecordingMetadataView,
};
use crate::session::lemma_in_order_monotone;

verus! {

/// The events renumbered from zero, keeping their times and actions.
pub open spec fn resequenced(events: Seq<InputEvent>) -> Seq<InputEvent> {
    Seq::new(
        events.len(),
        |j: int|
            InputEvent {
                sequence: j as u64,
                elapsed_time: events[j].elapsed_time,
                action: events[j].action,
            },
    )
}

/// Rebuilds a recording from edited events: the events are renumbered from
/// zero, then checked like any new recording.
pub fn rebuild_recording(metadata: RecordingMetadata, events: Vec<InputEvent>) -> (result: Result<
    Recording,
    crate::error::ValidationError,
>)
    requires
        events@.len() <= u64::MAX,
    ensures
        match recording_error(metadata@, resequenced(events@)) {
            Some(error) => result == Err::<Recording, crate::error::ValidationError>(error),
            None => result matches Ok(recording) && recording@ == (metadata@, resequenced(events@)),
        },
{
    let ghost original = events@;
    let mut events = events;
    let mut index: usize = 0;
    while index < events.len()
        invariant
            index <= events.len(),
            events@.len() == original.len(),
            original.len() <= u64::MAX,
            forall|j: int| 0 <= j < index ==> #[trigger] events@[j] == resequenced(original)[j],
            forall|j: int| index <= j < events@.len() ==> #[trigger] events@[j] == original[j],
        decreases events.len() - index,
    {
        let event = InputEvent {
            sequence: index as u64,
            elapsed_time: events[index].elapsed_time,
            action: events[index].action.duplicate(),
        };
        events.set(index, event);
        index += 1;
    }
    assert(events@ =~= resequenced(original));
    Recording::new(metadata, events)
}

/// The key and mouse button actions switch between pressed and released; other
/// actions cannot be toggled.
pub open spec fn toggled(action: InputAction) -> Option<InputAction> {
    match action {
        InputAction::KeyPressed { key } => Some(InputAction::KeyReleased { key }),
        InputAction::KeyReleased { key } => Some(InputAction::KeyPressed { key }),
        InputAction::MouseButtonPressed { button } => Some(InputAction::MouseButtonReleased { button }),
        InputAction::MouseButtonReleased { button } => Some(InputAction::MouseButtonPressed { button }),
        _ => None,
    }
}

/// Toggling switches an event between pressed and released and nothing else:
/// only key and mouse button actions toggle; a pressed key or button becomes
/// the release of that same key or button and a released one its press, so the
/// toggled action always differs from the original, and toggling twice gives
/// the original action back.
pub proof fn lemma_toggle_switches_state(action: InputAction)
    ensures
        (toggled(action) is Some) == (action is KeyPressed || action is KeyReleased
            || action is MouseButtonPressed || action is MouseButtonReleased),
        toggled(action) matches Some(switched) ==> {
            &&& switched != action
            &&& toggled(switched) == Some(action)
            &&& action_kind(action) == ActionKind::KeyPressed ==> action_kind(switched)
                == ActionKind::KeyReleased
            &&& action_kind(action) == ActionKind::KeyReleased ==> action_kind(switched)
                == ActionKind::KeyPressed
            &&& action_kind(action) == ActionKind::MouseButtonPressed ==> action_kind(switched)
                == ActionKind::MouseButtonReleased
            &&& action_kind(action) == ActionKind::MouseButtonReleased ==> action_kind(switched)
                == ActionKind::MouseButtonPressed
            &&& (action matches InputAction::KeyPressed { key } ==> switched
                == InputAction::KeyReleased { key })
            &&& (action matches InputAction::KeyReleased { key } ==> switched
                == InputAction::KeyPressed { key })
            &&& (action matches InputAction::MouseButtonPressed { button } ==> switched
                == InputAction::MouseButtonReleased { button })
            &&& (action matches InputAction::MouseButtonReleased { button } ==> switched
                == InputAction::MouseButtonPressed { button })
        },
{
}

/// The selection after an edit: none for an empty recording, else the wanted
/// index (the first event when none is wanted), clamped to the last event.
pub open spec fn clamped_selection(wanted: Option<usize>, event_count: nat) -> Option<usize> {
    if event_count == 0 {
        None
    } else {
        let index = match wanted {
            Some(index) => index as int,
            None => 0,
        };
        Some(
            if index < event_count {
                index as usize
            } else {
                (event_count - 1) as usize
            },
        )
    }
}

/// The time an event gets when nudged by `delta` microseconds: clamped between
/// the times of its neighbours (zero before the first event, the largest time
/// after the last).
pub open spec fn nudged_micros(events: Seq<InputEvent>, index: int, delta: i64) -> u64 {
    let minimum: int = if index == 0 {
        0
    } else {
        events[index - 1].elapsed_time.micros() as int
    };
    let maximum: int = if index + 1 < events.len() {
        events[index + 1].elapsed_time.micros() as int
    } else {
        u64::MAX as int
    };
    let wanted = events[index].elapsed_time.micros() + delta;
    (if wanted < minimum {
        minimum
    } else if wanted > maximum {
        maximum
    } else {
        wanted
    }) as u64
}

/// Two actions are the same, keys compared by content.
pub open spec fn same_action(left: InputAction, right: InputAction) -> bool {
    match (left, right) {
        (InputAction::KeyPressed { key: a }, InputAction::KeyPressed { key: b }) => a@ == b@,
        (InputAction::KeyReleased { key: a }, InputAction::KeyReleased { key: b }) => a@ == b@,
        (InputAction::KeyPressed { .. }, _) => false,
        (InputAction::KeyReleased { .. }, _) => false,
        (_, InputAction::KeyPressed { .. }) => false,
        (_, InputAction::KeyReleased { .. }) => false,
        _ => left == right,
    }
}

/// Two event streams are the same, keys compared by content.
pub open spec fn same_events(left: Seq<InputEvent>, right: Seq<InputEvent>) -> bool {
    &&& left.len() == right.len()
    &&& forall|i: int|
        0 <= i < left.len() ==> {
            &&& (#[trigger] left[i]).sequence == right[i].sequence
            &&& left[i].elapsed_time == right[i].elapsed_time
            &&& same_action(left[i].action, right[i].action)
        }
}

/// Two monitor lists are the same, names compared by content.
pub open spec fn same_monitors(left: Seq<MonitorDescriptor>, right: Seq<MonitorDescriptor>) -> bool {
    &&& left.len() == right.len()
    &&& forall|i: int|
        0 <= i < left.len() ==> {
            &&& optional_text_view((#[trigger] left[i]).name) == optional_text_view(right[i].name)
            &&& left[i].origin == right[i].origin
            &&& left[i].size == right[i].size
            &&& left[i].dpi == right[i].dpi
        }
}

/// Two metadata values are the same, texts compared by content.
pub open spec fn same_metadata(left: RecordingMetadataView, right: RecordingMetadataView) -> bool {
    &&& left.schema_version == right.schema_version
    &&& optional_text_view(left.title) == optional_text_view(right.title)
    &&& left.display.virtual_origin == right.display.virtual_origin
    &&& left.display.virtual_size == right.display.virtual_size
    &&& same_monitors(left.display.monitors, right.display.monitors)
}

/// Two recordings hold the same content.
pub open spec fn same_recording(
    left: (RecordingMetadataView, Seq<InputEvent>),
    right: (RecordingMetadataView, Seq<InputEvent>),
) -> bool {
    same_metadata(left.0, right.0) && same_events(left.1, right.1)
}

fn actions_match(left: &InputAction, right: &InputAction) -> (same: bool)
    ensures
        same == same_action(*left, *right),
{
    match (left, right) {
        (InputAction::KeyPressed { key: a }, InputAction::KeyPressed { key: b }) => a.same_key(b),
        (InputAction::KeyReleased { key: a }, InputAction::KeyReleased { key: b }) => a.same_key(b),
        (InputAction::PointerMoved { position: a }, InputAction::PointerMoved { position: b }) => {
            let same = a.absolute.x == b.absolute.x && a.absolute.y == b.absolute.y
                && a.normalized.x.to_bits() == b.normalized.x.to_bits() && a.normalized.y.to_bits()
                == b.normalized.y.to_bits();
            proof {
                if same {
                    crate::event::NormalizedCoordinate::lemma_equal(a.normalized.x, b.normalized.x);
                    crate::event::NormalizedCoordinate::lemma_equal(a.normalized.y, b.normalized.y);
                }
            }
            same
        },
        (
            InputAction::MouseButtonPressed { button: a },
            InputAction::MouseButtonPressed { button: b },
        ) => *a == *b,
        (
            InputAction::MouseButtonReleased { button: a },
            InputAction::MouseButtonReleased { button: b },
        ) => *a == *b,
        (
            InputAction::MouseWheelScrolled { axis: a, delta: da },
            InputAction::MouseWheelScrolled { axis: b, delta: db },
        ) => *a == *b && *da == *db,
        _ => false,
    }
}

fn recordings_match(left: &Recording, right: &Recording) -> (same: bool)
    ensures
        same == same_recording(left@, right@),
{
    let lm = left.metadata();
    let rm = right.metadata();
    if lm.schema_version.get() != rm.schema_version.get() {
        return false;
    }
    if !optional_text_equals(&lm.title, &rm.title) {
        return false;
    }
    if lm.display.virtual_origin.x != rm.display.virtual_origin.x || lm.display.virtual_origin.y
        != rm.display.virtual_origin.y {
        return false;
    }
    if lm.display.virtual_size.width != rm.display.virtual_size.width
        || lm.display.virtual_size.height != rm.display.virtual_size.height {
        return false;
    }
    if lm.display.monitors.len() != rm.display.monitors.len() {
        return false;
    }
    assert(lm.schema_version == rm.schema_version) by {
        crate::event::SchemaVersion::lemma_equal(lm.schema_version, rm.schema_version);
    }
    let mut index: usize = 0;
    while index < lm.display.monitors.len()
        invariant
            index <= lm.display.monitors.len(),
            lm@ == left@.0,
            rm@ == right@.0,
            lm.schema_version == rm.schema_version,
            optional_text_view(lm.title) == optional_text_view(rm.title),
            lm.display.virtual_origin == rm.display.virtual_origin,
            lm.display.virtual_size == rm.display.virtual_size,
            lm.display.monitors.len() == rm.display.monitors.len(),
            forall|i: int|
                0 <= i < index ==> {
                    &&& optional_text_view((#[trigger] lm.display.monitors@[i]).name)
                        == optional_text_view(rm.display.monitors@[i].name)
                    &&& lm.display.monitors@[i].origin == rm.display.monitors@[i].origin
                    &&& lm.display.monitors@[i].size == rm.display.monitors@[i].size
                    &&& lm.display.monitors@[i].dpi == rm.display.monitors@[i].dpi
                },
        decreases lm.display.monitors.len() - index,
    {
        let a = &lm.display.monitors[index];
        let b = &rm.display.monitors[index];
        if !optional_text_equals(&a.name, &b.name) || a.origin.x != b.origin.x || a.origin.y
            != b.origin.y || a.size.width != b.size.width || a.size.height != b.size.height
            || a.dpi.x != b.dpi.x || a.dpi.y != b.dpi.y {
            assert(!same_monitors(lm.display.monitors@, rm.display.monitors@)) by {
                assert(lm.display.monitors@[index as int] == *a);
            }
            return false;
        }
        index += 1;
    }
    assert(same_metadata(left@.0, right@.0));
    let le = left.events();
    let re = right.events();
    if le.len() != re.len() {
        return false;
    }
    let mut index: usize = 0;
    while index < le.len()
        invariant
            index <= le.len(),
            le@ == left@.1,
            re@ == right@.1,
            same_metadata(left@.0, right@.0),
            le.len() == re.len(),
            forall|i: int|
                0 <= i < index ==> {
                    &&& (#[trigger] le@[i]).sequence == re@[i].sequence
                    &&& le@[i].elapsed_time == re@[i].elapsed_time
                    &&& same_action(le@[i].action, re@[i].action)
                },
        decreases le.len() - index,
    {
        if le[index].sequence != re[index].sequence || le[index].elapsed_time.as_micros()
            != re[index].elapsed_time.as_micros() || !actions_match(
            &le[index].action,
            &re[index].action,
        ) {
            assert(!same_events(le@, re@)) by {
                assert(le@[index as int] == le[index as int]);
            }
            return false;
        }
        proof {
            EventOffset::lemma_equal(le@[index as int].elapsed_time, re@[index as int].elapsed_time);
        }
        index += 1;
    }
    true
}

fn copy_metadata(metadata: &RecordingMetadata) -> (copy: RecordingMetadata)
    ensures
        copy@ == metadata@,
{
    RecordingMetadata {
        schema_version: metadata.schema_version,
        title: optional_text_copy(&metadata.title),
        display: duplicate_display(&metadata.display),
    }
}

fn copy_events(events: &[InputEvent]) -> (copy: Vec<InputEvent>)
    ensures
        copy@ == events@,
{
    let mut copy: Vec<InputEvent> = Vec::new();
    let mut index: usize = 0;
    while index < events.len()
        invariant
            index <= events.len(),
            copy@ == events@.subrange(0, index as int),
        decreases events.len() - index,
    {
        copy.push(events[index].duplicate());
        index += 1;
        assert(copy@ =~= events@.subrange(0, index as int));
    }
    assert(copy@ =~= events@);
    copy
}

/// Rebuilding events whose times never go back yields a valid recording.
proof fn lemma_rebuild_is_valid(metadata: RecordingMetadataView, events: Seq<InputEvent>)
    requires
        events.len() <= u64::MAX,
        metadata_error(metadata) is None,
        forall|j: int|
            0 < j < events.len() ==> events[j - 1].elapsed_time.micros() <= (#[trigger] events[j]).elapsed_time.micros(),
    ensures
        recording_error(metadata, resequenced(events)) is None,
{
    let renumbered = resequenced(events);
    assert forall|j: int| 0 <= j < renumbered.len() implies crate::recording::event_in_order(renumbered, j) by {
        assert(renumbered[j].sequence == j);
        if j > 0 {
            assert(events[j - 1].elapsed_time.micros() <= events[j].elapsed_time.micros());
        }
    }
    lemma_events_error_none(renumbered);
}

/// Times stay in order when an event is taken out.
proof fn lemma_removal_keeps_order(before: Seq<InputEvent>, index: int)
    requires
        events_in_order(before),
        0 <= index < before.len(),
    ensures
        forall|j: int|
            0 < j < before.remove(index).len() ==> before.remove(index)[j - 1].elapsed_time.micros()
                <= (#[trigger] before.remove(index)[j]).elapsed_time.micros(),
{
    let after = before.remove(index);
    assert forall|j: int| 0 < j < after.len() implies after[j - 1].elapsed_time.micros() <= (#[trigger] after[j]).elapsed_time.micros() by {
        let previous = if j - 1 < index { j - 1 } else { j };
        let current = if j < index { j } else { j + 1 };
        assert(after[j - 1] == before[previous]);
        assert(after[j] == before[current]);
        lemma_in_order_monotone(before, previous, current);
    }
}

/// Times stay in order when a copy of an event is put right after it.
proof fn lemma_copy_keeps_order(before: Seq<InputEvent>, index: int)
    requires
        events_in_order(before),
        0 <= index < before.len(),
    ensures
        forall|j: int|
            0 < j < before.insert(index + 1, before[index]).len() ==> before.insert(index + 1, before[index])[j - 1].elapsed_time.micros()
                <= (#[trigger] before.insert(index + 1, before[index])[j]).elapsed_time.micros(),
{
    let after = before.insert(index + 1, before[index]);
    assert forall|j: int| 0 < j < after.len() implies after[j - 1].elapsed_time.micros() <= (#[trigger] after[j]).elapsed_time.micros() by {
        let previous = if j - 1 <= index { j - 1 } else { j - 2 };
        let current = if j <= index { j } else { j - 1 };
        assert(after[j - 1] == before[previous]);
        assert(after[j] == before[current]);
        lemma_in_order_monotone(before, previous, current);
    }
}

/// Every recording holds the same content as itself: a session is clean when it
/// starts and right after a revert.
pub proof fn lemma_same_recording_reflexive(recording: (RecordingMetadataView, Seq<InputEvent>))
    ensures
        same_recording(recording, recording),
{
}

/// A recording being edited: the recording as loaded, the working copy that
/// edits change, and the selected event of the working copy.
#[derive(Debug)]
pub struct EditingSession {
    source_path: String,
    original_recording: Recording,
    working_recording: Recording,
    selected_event_index: Option<usize>,
}

/// What an editing session holds: the path its recording was loaded from, the
/// recording as loaded, the working copy, and the selected event.
pub struct EditingSessionView {
    pub source_path: Seq<char>,
    pub original: (RecordingMetadataView, Seq<InputEvent>),
    pub working: (RecordingMetadataView, Seq<InputEvent>),
    pub selected: Option<usize>,
}

impl View for EditingSession {
    type V = EditingSessionView;

    closed spec fn view(&self) -> EditingSessionView {
        EditingSessionView {
            source_path: self.source_path@,
            original: self.original_recording@,
            working: self.working_recording@,
            selected: self.selected_event_index,
        }
    }
}

impl EditingSession {
    #[verifier::type_invariant]
    closed spec fn selection_in_range(self) -> bool {
        self.selected_event_index matches Some(index) ==> index < self.working_recording@.1.len()
    }

    pub open spec fn spec_source_path(&self) -> Seq<char> {
        self@.source_path
    }

    pub open spec fn spec_original(&self) -> (RecordingMetadataView, Seq<InputEvent>) {
        self@.original
    }

    pub open spec fn spec_working(&self) -> (RecordingMetadataView, Seq<InputEvent>) {
        self@.working
    }

    pub open spec fn spec_selected(&self) -> Option<usize> {
        self@.selected
    }

    /// Starts editing a recording loaded from `source_path`, with the first event
    /// selected.
    pub fn from_recording(source_path: String, recording: &Recording) -> (session: Self)
        ensures
            session.spec_source_path() == source_path@,
            session.spec_original() == recording@,
            session.spec_working() == recording@,
            session.spec_selected() == (if recording@.1.len() > 0 {
                Some(0usize)
            } else {
                None
            }),
    {
        let selected_event_index = if recording.event_count() > 0 {
            Some(0)
        } else {
            None
        };
        EditingSession {
            source_path,
            original_recording: recording.duplicate(),
            working_recording: recording.duplicate(),
            selected_event_index,
        }
    }

    /// The path the recording was loaded from.
    pub fn source_path(&self) -> (path: &String)
        ensures
            path@ == self.spec_source_path(),
    {
        &self.source_path
    }

    /// The recording as loaded.
    pub fn original_recording(&self) -> (recording: &Recording)
        ensures
            recording@ == self.spec_original(),
    {
        &self.original_recording
    }

    /// The working copy with the edits made so far.
    pub fn working_recording(&self) -> (recording: &Recording)
        ensures
            recording@ == self.spec_working(),
    {
        &self.working_recording
    }

    /// The selected event of the working copy, if any.
    pub fn selected_event_index(&self) -> (index: Option<usize>)
        ensures
            index == self.spec_selected(),
            index matches Some(i) ==> i < self.spec_working().1.len(),
    {
        proof {
            use_type_invariant(self);
        }
        self.selected_event_index
    }

    /// Reports whether the working copy differs from the recording as loaded.
    pub fn is_dirty(&self) -> (dirty: bool)
        ensures
            dirty == !same_recording(self.spec_original(), self.spec_working()),
    {
        !recordings_match(&self.original_recording, &self.working_recording)
    }

    /// Selects an event of the working copy; an index past the end changes nothing.
    pub fn select_event(&mut self, index: usize)
        ensures
            final(self).spec_source_path() == old(self).spec_source_path(),
            final(self).spec_original() == old(self).spec_original(),
            final(self).spec_working() == old(self).spec_working(),
            final(self).spec_selected() == (if index < old(self).spec_working().1.len() {
                Some(index)
            } else {
                old(self).spec_selected()
            }),
    {
        if index < self.working_recording.event_count() {
            self.selected_event_index = Some(index);
        }
    }

    /// Clears the selection.
    pub fn clear_selection(&mut self)
        ensures
            final(self).spec_source_path() == old(self).spec_source_path(),
            final(self).spec_original() == old(self).spec_original(),
            final(self).spec_working() == old(self).spec_working(),
            final(self).spec_selected() is None,
    {
        self.selected_event_index = None;
    }

    /// Selects the wanted event, clamped to the last one; nothing when the working
    /// copy is empty.
    pub fn select_event_clamped(&mut self, index: Option<usize>)
        ensures
            final(self).spec_source_path() == old(self).spec_source_path(),
            final(self).spec_original() == old(self).spec_original(),
            final(self).spec_working() == old(self).spec_working(),
            final(self).spec_selected() == clamped_selection(index, old(self).spec_working().1.len()),
    {
        let count = self.working_recording.event_count();
        if count == 0 {
            self.selected_event_index = None;
            return;
        }
        let wanted = match index {
            Some(index) => index,
            None => 0,
        };
        let clamped = if wanted < count {
            wanted
        } else {
            count - 1
        };
        self.selected_event_index = Some(clamped);
    }

    fn replace_working(&mut self, recording: Recording, wanted: Option<usize>)
        ensures
            final(self).spec_source_path() == old(self).spec_source_path(),
            final(self).spec_original() == old(self).spec_original(),
            final(self).spec_working() == recording@,
            final(self).spec_selected() == clamped_selection(wanted, recording@.1.len()),
    {
        self.selected_event_index = None;
        self.working_recording = recording;
        self.select_event_clamped(wanted);
    }

    /// Deletes the selected event.
    pub fn delete_selected_event(&mut self) -> (result: Result<(), String>)
        ensures
            old(self).spec_selected() is None ==> (result matches Err(message) && message@
                == "Select an event before deleting it."@ && *final(self) == *old(self)),
            old(self).spec_selected() matches Some(index) ==> {
                let events = old(self).spec_working().1;
                &&& result is Ok
                &&& final(self).spec_source_path() == old(self).spec_source_path()
                &&& final(self).spec_original() == old(self).spec_original()
                &&& final(self).spec_working() == (old(self).spec_working().0, resequenced(events.remove(index as int)))
                &&& final(self).spec_selected() == clamped_selection(Some(index), (events.len() - 1) as nat)
            },
    {
        match self.selected_event_index {
            None => Err("Select an event before deleting it.".to_owned()),
            Some(index) => {
                proof {
                    use_type_invariant(&*self);
                }
                self.delete_event_at(index)
            },
        }
    }

    /// Deletes the event at an index of the working copy and renumbers the rest.
    pub fn delete_event_at(&mut self, event_index: usize) -> (result: Result<(), String>)
        ensures
            event_index >= old(self).spec_working().1.len() ==> (result matches Err(message)
                && message@ == "Select an event before deleting it."@ && *final(self) == *old(self)),
            event_index < old(self).spec_working().1.len() ==> {
                let events = old(self).spec_working().1;
                &&& result is Ok
                &&& final(self).spec_source_path() == old(self).spec_source_path()
                &&& final(self).spec_original() == old(self).spec_original()
                &&& final(self).spec_working() == (old(self).spec_working().0, resequenced(events.remove(event_index as int)))
                &&& final(self).spec_selected() == clamped_selection(Some(event_index), (events.len() - 1) as nat)
            },
    {
        if event_index >= self.working_recording.event_count() {
            return Err("Select an event before deleting it.".to_owned());
        }
        let metadata = copy_metadata(self.working_recording.metadata());
        let mut events = copy_events(self.working_recording.events());
        let ghost before = events@;
        let count = events.len();
        proof {
            lemma_events_error_none(before);
        }
        events.remove(event_index);
        proof {
            lemma_removal_keeps_order(before, event_index as int);
            lemma_rebuild_is_valid(metadata@, events@);
        }
        let rebuilt = match rebuild_recording(metadata, events) {
            Ok(recording) => recording,
            Err(_) => {
                return vstd::pervasive::unreached();
            },
        };
        self.replace_working(rebuilt, Some(event_index));
        Ok(())
    }

    /// Inserts a copy of the selected event right after it and selects the copy.
    pub fn duplicate_selected_event(&mut self) -> (result: Result<(), String>)
        ensures
            old(self).spec_selected() is None ==> (result matches Err(message) && message@
                == "Select an event before duplicating it."@ && *final(self) == *old(self)),
            old(self).spec_selected() matches Some(index) ==> {
                let events = old(self).spec_working().1;
                &&& result is Ok
                &&& final(self).spec_source_path() == old(self).spec_source_path()
                &&& final(self).spec_original() == old(self).spec_original()
                &&& final(self).spec_working() == (
                    old(self).spec_working().0,
                    resequenced(events.insert(index + 1, events[index as int])),
                )
                &&& final(self).spec_selected() == Some((index + 1) as usize)
            },
    {
        let index = match self.selected_event_index {
            None => {
                return Err("Select an event before duplicating it.".to_owned());
            },
            Some(index) => index,
        };
        proof {
            use_type_invariant(&*self);
        }
        let metadata = copy_metadata(self.working_recording.metadata());
        let mut events = copy_events(self.working_recording.events());
        let ghost before = events@;
        let count = events.len();
        proof {
            lemma_events_error_none(before);
        }
        let copy = events[index].duplicate();
        events.insert(index + 1, copy);
        let new_count = events.len();
        assert(new_count <= u64::MAX);
        proof {
            lemma_copy_keeps_order(before, index as int);
            lemma_rebuild_is_valid(metadata@, events@);
        }
        let rebuilt = match rebuild_recording(metadata, events) {
            Ok(recording) => recording,
            Err(_) => {
                return vstd::pervasive::unreached();
            },
        };
        self.replace_working(rebuilt, Some(index + 1));
        Ok(())
    }

    /// Switches the selected key or mouse button event between pressed and released.
    pub fn toggle_selected_event_state(&mut self) -> (result: Result<(), String>)
        ensures
            old(self).spec_selected() is None ==> (result matches Err(message) && message@
                == "Select an event before changing it."@ && *final(self) == *old(self)),
            old(self).spec_selected() matches Some(index) ==> (toggled(
                old(self).spec_working().1[index as int].action,
            ) is None ==> (result matches Err(message) && message@
                == "Only key and mouse button events can toggle between pressed and released states."@
                && *final(self) == *old(self))),
            old(self).spec_selected() matches Some(index) ==> (toggled(
                old(self).spec_working().1[index as int].action,
            ) matches Some(action) ==> {
                let events = old(self).spec_working().1;
                let changed = InputEvent { action, ..events[index as int] };
                &&& result is Ok
                &&& final(self).spec_source_path() == old(self).spec_source_path()
                &&& final(self).spec_original() == old(self).spec_original()
                &&& final(self).spec_working() == (
                    old(self).spec_working().0,
                    resequenced(events.update(index as int, changed)),
                )
                &&& final(self).spec_selected() == Some(index)
            }),
    {
        let index = match self.selected_event_index {
            None => {
                return Err("Select an event before changing it.".to_owned());
            },
            Some(index) => index,
        };
        proof {
            use_type_invariant(&*self);
        }
        let toggled_action = match &self.working_recording.events()[index].action {
            InputAction::KeyPressed { key } => InputAction::KeyReleased { key: key.duplicate() },
            InputAction::KeyReleased { key } => InputAction::KeyPressed { key: key.duplicate() },
            InputAction::MouseButtonPressed { button } => InputAction::MouseButtonReleased {
                button: *button,
            },
            InputAction::MouseButtonReleased { button } => InputAction::MouseButtonPressed {
                button: *button,
            },
            _ => {
                return Err(
                    "Only key and mouse button events can toggle between pressed and released states.".to_owned(),
                );
            },
        };
        let metadata = copy_metadata(self.working_recording.metadata());
        let mut events = copy_events(self.working_recording.events());
        let ghost before = events@;
        let count = events.len();
        proof {
            lemma_events_error_none(before);
        }
        let changed = InputEvent {
            sequence: events[index].sequence,
            elapsed_time: events[index].elapsed_time,
            action: toggled_action,
        };
        events.set(index, changed);
        proof {
            let after = events@;
            assert forall|j: int|
                0 < j < after.len() implies after[j - 1].elapsed_time.micros() <= (#[trigger] after[j]).elapsed_time.micros() by {
                assert(after[j - 1].elapsed_time == before[j - 1].elapsed_time);
                assert(after[j].elapsed_time == before[j].elapsed_time);
                lemma_in_order_monotone(before, j - 1, j);
            }
            lemma_rebuild_is_valid(metadata@, after);
        }
        let rebuilt = match rebuild_recording(metadata, events) {
            Ok(recording) => recording,
            Err(_) => {
                return vstd::pervasive::unreached();
            },
        };
        self.replace_working(rebuilt, Some(index));
        Ok(())
    }

    /// Moves the selected event in time by `delta_micros`, clamped between the
    /// times of its neighbours.
    pub fn nudge_selected_event(&mut self, delta_micros: i64) -> (result: Result<(), String>)
        ensures
            old(self).spec_selected() is None ==> (result matches Err(message) && message@
                == "Select an event before changing its timing."@ && *final(self) == *old(self)),
            old(self).spec_selected() matches Some(index) ==> {
                let events = old(self).spec_working().1;
                let moved = InputEvent {
                    elapsed_time: EventOffset::spec_from_micros(nudged_micros(events, index as int, delta_micros)),
                    ..events[index as int]
                };
                &&& result is Ok
                &&& final(self).spec_source_path() == old(self).spec_source_path()
                &&& final(self).spec_original() == old(self).spec_original()
                &&& final(self).spec_working() == (
                    old(self).spec_working().0,
                    resequenced(events.update(index as int, moved)),
                )
                &&& final(self).spec_selected() == Some(index)
            },
    {
        let index = match self.selected_event_index {
            None => {
                return Err("Select an event before changing its timing.".to_owned());
            },
            Some(index) => index,
        };
        proof {
            use_type_invariant(&*self);
        }
        let metadata = copy_metadata(self.working_recording.metadata());
        let mut events = copy_events(self.working_recording.events());
        let ghost before = events@;
        let count = events.len();
        proof {
            lemma_events_error_none(before);
        }
        let minimum: u64 = if index == 0 {
            0
        } else {
            events[index - 1].elapsed_time.as_micros()
        };
        let maximum: u64 = if index + 1 < events.len() {
            events[index + 1].elapsed_time.as_micros()
        } else {
            u64::MAX
        };
        let current = events[index].elapsed_time.as_micros() as i128;
        let wanted: i128 = current + delta_micros as i128;
        let adjusted: u64 = if wanted < minimum as i128 {
            minimum
        } else if wanted > maximum as i128 {
            maximum
        } else {
            wanted as u64
        };
        assert(adjusted == nudged_micros(before, index as int, delta_micros));
        let moved = InputEvent {
            sequence: events[index].sequence,
            elapsed_time: EventOffset::from_micros(adjusted),
            action: events[index].action.duplicate(),
        };
        events.set(index, moved);
        proof {
            let after = events@;
            if index > 0 && index + 1 < before.len() {
                lemma_in_order_monotone(before, index - 1, index + 1);
            }
            assert forall|j: int|
                0 < j < after.len() implies after[j - 1].elapsed_time.micros() <= (#[trigger] after[j]).elapsed_time.micros() by {
                if j == index {
                    assert(after[j - 1] == before[j - 1]);
                    assert(after[j].elapsed_time.micros() == adjusted);
                    assert(minimum == before[j - 1].elapsed_time.micros());
                } else if j - 1 == index {
                    assert(after[j] == before[j]);
                    assert(after[j - 1].elapsed_time.micros() == adjusted);
                    assert(maximum == before[j].elapsed_time.micros());
                } else {
                    assert(after[j - 1] == before[j - 1]);
                    assert(after[j] == before[j]);
                    lemma_in_order_monotone(before, j - 1, j);
                }
            }
            lemma_rebuild_is_valid(metadata@, after);
        }
        let rebuilt = match rebuild_recording(metadata, events) {
            Ok(recording) => recording,
            Err(_) => {
                return vstd::pervasive::unreached();
            },
        };
        self.replace_working(rebuilt, Some(index));
        Ok(())
    }

    /// Drops every edit: the working copy becomes the recording as loaded again,
    /// keeping the selection where it still fits.
    pub fn revert(&mut self)
        ensures
            final(self).spec_source_path() == old(self).spec_source_path(),
            final(self).spec_original() == old(self).spec_original(),
            final(self).spec_working() == old(self).spec_original(),
            final(self).spec_selected() == clamped_selection(
                old(self).spec_selected(),
                old(self).spec_original().1.len(),
            ),
    {
        let selected = self.selected_event_index;
        let copy = self.original_recording.duplicate();
        self.replace_working(copy, selected);
    }
}

} // verus!
