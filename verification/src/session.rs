use vstd::prelude::*;

use crate::error::ValidationError;
use crate::event::{ElapsedTime, InputAction, InputEvent, KeyDescriptor, MouseButton};
use crate::recording::{
    duration_micros, event_in_order, events_in_order, lemma_events_error_none, Recording,
};

verus! {

/// The keys and mouse buttons held down, in the order they were first pressed.
pub struct PressedModel {
    pub keys: Seq<KeyDescriptor>,
    pub buttons: Seq<MouseButton>,
}

pub open spec fn no_pressed_input() -> PressedModel {
    PressedModel { keys: Seq::empty(), buttons: Seq::empty() }
}

/// Some held key has the same content as `key`.
pub open spec fn key_held(keys: Seq<KeyDescriptor>, key: KeyDescriptor) -> bool {
    exists|index: int| 0 <= index < keys.len() && keys[index]@ == key@
}

/// The keys other than those with the same content as `key`, in order.
pub open spec fn without_key(keys: Seq<KeyDescriptor>, key: KeyDescriptor) -> Seq<KeyDescriptor>
    decreases keys.len(),
{
    if keys.len() == 0 {
        Seq::empty()
    } else {
        let rest = without_key(keys.drop_last(), key);
        if keys.last()@ == key@ {
            rest
        } else {
            rest.push(keys.last())
        }
    }
}

/// The buttons other than `button`, in order.
pub open spec fn without_button(buttons: Seq<MouseButton>, button: MouseButton) -> Seq<MouseButton>
    decreases buttons.len(),
{
    if buttons.len() == 0 {
        Seq::empty()
    } else {
        let rest = without_button(buttons.drop_last(), button);
        if buttons.last() == button {
            rest
        } else {
            rest.push(buttons.last())
        }
    }
}

/// The held inputs after one more action: a press adds a key or button that is
/// not already held, a release removes it, pointer moves and wheel scrolls change
/// nothing.
pub open spec fn note_action(state: PressedModel, action: InputAction) -> PressedModel {
    match action {
        InputAction::KeyPressed { key } => if key_held(state.keys, key) {
            state
        } else {
            PressedModel { keys: state.keys.push(key), buttons: state.buttons }
        },
        InputAction::KeyReleased { key } => PressedModel {
            keys: without_key(state.keys, key),
            buttons: state.buttons,
        },
        InputAction::MouseButtonPressed { button } => if state.buttons.contains(button) {
            state
        } else {
            PressedModel { keys: state.keys, buttons: state.buttons.push(button) }
        },
        InputAction::MouseButtonReleased { button } => PressedModel {
            keys: state.keys,
            buttons: without_button(state.buttons, button),
        },
        _ => state,
    }
}

/// The inputs held after replaying `events` from a fully released state.
pub open spec fn pressed_after(events: Seq<InputEvent>) -> PressedModel
    decreases events.len(),
{
    if events.len() == 0 {
        no_pressed_input()
    } else {
        note_action(pressed_after(events.drop_last()), events.last().action)
    }
}

/// The releases that return `state` to a fully released state: buttons first,
/// then keys, each in the reverse of the order they were pressed.
pub open spec fn release_actions(state: PressedModel) -> Seq<InputAction> {
    Seq::new(
        state.buttons.len(),
        |k: int| InputAction::MouseButtonReleased { button: state.buttons[state.buttons.len() - 1 - k] },
    ) + Seq::new(
        state.keys.len(),
        |k: int| InputAction::KeyReleased { key: state.keys[state.keys.len() - 1 - k] },
    )
}

/// `after` is `before` followed by one event per action, each numbered after its
/// predecessor and stamped with `micros`.
pub open spec fn appends_actions(
    before: Seq<InputEvent>,
    after: Seq<InputEvent>,
    actions: Seq<InputAction>,
    micros: u64,
) -> bool {
    &&& after.len() == before.len() + actions.len()
    &&& after.subrange(0, before.len() as int) == before
    &&& forall|k: int|
        0 <= k < actions.len() ==> {
            &&& (#[trigger] after[before.len() + k]).sequence == before.len() + k
            &&& after[before.len() + k].elapsed_time.micros() == micros
            &&& after[before.len() + k].action == actions[k]
        }
}

/// A release of a key or button that is not held at that point.
pub open spec fn is_unmatched_release(state: PressedModel, action: InputAction) -> bool {
    match action {
        InputAction::KeyReleased { key } => !key_held(state.keys, key),
        InputAction::MouseButtonReleased { button } => !state.buttons.contains(button),
        _ => false,
    }
}

/// Every key and button is held at most once.
pub open spec fn pressed_distinct(state: PressedModel) -> bool {
    &&& forall|i: int, j: int|
        0 <= i < j < state.keys.len() ==> (#[trigger] state.keys[i])@ != (#[trigger] state.keys[j])@
    &&& state.buttons.no_duplicates()
}

/// The keys and mouse buttons currently held, in the order they were first pressed.
pub struct PressedInputState {
    keys: Vec<KeyDescriptor>,
    buttons: Vec<MouseButton>,
}

impl View for PressedInputState {
    type V = PressedModel;

    closed spec fn view(&self) -> PressedModel {
        PressedModel { keys: self.keys@, buttons: self.buttons@ }
    }
}

fn push_action(events: &mut Vec<InputEvent>, elapsed_time: ElapsedTime, action: InputAction)
    ensures
        final(events)@.len() == old(events)@.len() + 1,
        final(events)@.drop_last() == old(events)@,
        final(events)@.last().sequence == old(events)@.len(),
        final(events)@.last().elapsed_time == elapsed_time,
        final(events)@.last().action == action,
{
    let sequence = events.len() as u64;
    events.push(InputEvent { sequence, elapsed_time, action });
    assert(events@.drop_last() =~= old(events)@);
}

/// Appends a captured action as the next event: its sequence number is its
/// position and its elapsed time the given number of microseconds. Events that
/// were in order stay in order when the new event does not start before the
/// last one.
pub fn push_captured(events: &mut Vec<InputEvent>, elapsed_micros: u64, action: InputAction)
    ensures
        final(events)@ == old(events)@.push(
            (InputEvent {
                sequence: old(events)@.len() as u64,
                elapsed_time: ElapsedTime::spec_from_micros(elapsed_micros),
                action,
            }),
        ),
        events_in_order(old(events)@) && (old(events)@.len() == 0 || old(
            events,
        )@.last().elapsed_time.micros() <= elapsed_micros) ==> events_in_order(final(events)@),
{
    let elapsed_time = ElapsedTime::from_micros(elapsed_micros);
    push_action(events, elapsed_time, action);
    proof {
        let before = old(events)@;
        let after = events@;
        assert(after =~= before.push(after.last()));
        if events_in_order(before) && (before.len() == 0 || before.last().elapsed_time.micros()
            <= elapsed_micros) {
            assert forall|index: int| 0 <= index < after.len() implies event_in_order(
                after,
                index,
            ) by {
                if index < before.len() {
                    assert(event_in_order(before, index));
                }
            }
        }
    }
}

/// What playback does with the next event at its scheduled time.
#[derive(Debug, Clone, Copy, PartialEq, Eq, Structural)]
pub enum PlaybackAction {
    /// Send the event's input.
    Send,
    /// Release what is still held and report the playback as interrupted.
    Stop,
}

/// The progress of a playback: the number of events sent so far and the inputs
/// they left held down.
pub struct PlaybackProgress {
    dispatched_events: usize,
    pressed: PressedInputState,
}

impl PlaybackProgress {
    pub closed spec fn dispatched(&self) -> nat {
        self.dispatched_events as nat
    }

    pub closed spec fn held(&self) -> PressedModel {
        self.pressed@
    }

    /// A playback that has sent nothing.
    pub fn new() -> (progress: Self)
        ensures
            progress.dispatched() == 0,
            progress.held() == no_pressed_input(),
    {
        PlaybackProgress { dispatched_events: 0, pressed: PressedInputState::new() }
    }

    /// At an event's scheduled time: stop when a stop was requested, else send.
    pub fn decide(&self, stop_requested: bool) -> (action: PlaybackAction)
        ensures
            action == (if stop_requested {
                PlaybackAction::Stop
            } else {
                PlaybackAction::Send
            }),
    {
        if stop_requested {
            PlaybackAction::Stop
        } else {
            PlaybackAction::Send
        }
    }

    /// Records that an event's input was sent: one more event dispatched, and
    /// the held inputs updated by its action.
    pub fn note_sent(&mut self, action: &InputAction)
        requires
            old(self).dispatched() < usize::MAX,
        ensures
            final(self).dispatched() == old(self).dispatched() + 1,
            final(self).held() == note_action(old(self).held(), *action),
    {
        self.dispatched_events += 1;
        self.pressed.note_action(action);
    }

    /// The number of events sent so far.
    pub fn dispatched_events(&self) -> (count: usize)
        ensures
            count == self.dispatched(),
    {
        self.dispatched_events
    }

    /// The inputs held down by the events sent so far.
    pub fn pressed(&self) -> (pressed: &PressedInputState)
        ensures
            pressed@ == self.held(),
    {
        &self.pressed
    }
}

impl PressedInputState {
    /// A state with nothing held.
    pub fn new() -> (state: Self)
        ensures
            state@ == no_pressed_input(),
    {
        PressedInputState { keys: Vec::new(), buttons: Vec::new() }
    }

    fn is_key_pressed(&self, key: &KeyDescriptor) -> (pressed: bool)
        ensures
            pressed == key_held(self@.keys, *key),
    {
        let mut index: usize = 0;
        while index < self.keys.len()
            invariant
                index <= self.keys.len(),
                forall|i: int| 0 <= i < index ==> self.keys@[i]@ != key@,
            decreases self.keys.len() - index,
        {
            if self.keys[index].same_key(key) {
                return true;
            }
            index += 1;
        }
        false
    }

    fn is_button_pressed(&self, button: MouseButton) -> (pressed: bool)
        ensures
            pressed == self@.buttons.contains(button),
    {
        let mut index: usize = 0;
        while index < self.buttons.len()
            invariant
                index <= self.buttons.len(),
                forall|i: int| 0 <= i < index ==> self.buttons@[i] != button,
            decreases self.buttons.len() - index,
        {
            if self.buttons[index] == button {
                return true;
            }
            index += 1;
        }
        false
    }

    fn release_key(&mut self, key: &KeyDescriptor)
        ensures
            final(self)@ == (PressedModel {
                keys: without_key(old(self)@.keys, *key),
                buttons: old(self)@.buttons,
            }),
    {
        let mut kept: Vec<KeyDescriptor> = Vec::new();
        let mut index: usize = 0;
        while index < self.keys.len()
            invariant
                index <= self.keys.len(),
                self@ == old(self)@,
                kept@ == without_key(self.keys@.subrange(0, index as int), *key),
            decreases self.keys.len() - index,
        {
            let ghost prefix = self.keys@.subrange(0, index + 1);
            assert(prefix.drop_last() =~= self.keys@.subrange(0, index as int));
            if !self.keys[index].same_key(key) {
                kept.push(self.keys[index].duplicate());
            }
            index += 1;
        }
        assert(self.keys@.subrange(0, self.keys.len() as int) =~= self.keys@);
        self.keys = kept;
    }

    fn release_button(&mut self, button: MouseButton)
        ensures
            final(self)@ == (PressedModel {
                keys: old(self)@.keys,
                buttons: without_button(old(self)@.buttons, button),
            }),
    {
        let mut kept: Vec<MouseButton> = Vec::new();
        let mut index: usize = 0;
        while index < self.buttons.len()
            invariant
                index <= self.buttons.len(),
                self@ == old(self)@,
                kept@ == without_button(self.buttons@.subrange(0, index as int), button),
            decreases self.buttons.len() - index,
        {
            let ghost prefix = self.buttons@.subrange(0, index + 1);
            assert(prefix.drop_last() =~= self.buttons@.subrange(0, index as int));
            if self.buttons[index] != button {
                kept.push(self.buttons[index]);
            }
            index += 1;
        }
        assert(self.buttons@.subrange(0, self.buttons.len() as int) =~= self.buttons@);
        self.buttons = kept;
    }

    /// Tracks one more dispatched or recorded action.
    pub fn note_action(&mut self, action: &InputAction)
        ensures
            final(self)@ == note_action(old(self)@, *action),
    {
        match action {
            InputAction::KeyPressed { key } => {
                if !self.is_key_pressed(key) {
                    self.keys.push(key.duplicate());
                }
            },
            InputAction::KeyReleased { key } => {
                self.release_key(key);
            },
            InputAction::MouseButtonPressed { button } => {
                if !self.is_button_pressed(*button) {
                    self.buttons.push(*button);
                }
            },
            InputAction::MouseButtonReleased { button } => {
                self.release_button(*button);
            },
            InputAction::PointerMoved { .. } => {},
            InputAction::MouseWheelScrolled { .. } => {},
        }
    }

    /// The releases that return to a fully released state: buttons first, then
    /// keys, each in the reverse of the order they were pressed.
    pub fn release_action_list(&self) -> (actions: Vec<InputAction>)
        ensures
            actions@ == release_actions(self@),
    {
        let ghost expected = release_actions(self@);
        let mut actions: Vec<InputAction> = Vec::new();
        let mut index: usize = self.buttons.len();
        while index > 0
            invariant
                index <= self.buttons.len(),
                expected == release_actions(self@),
                actions@ == expected.subrange(0, self.buttons.len() - index),
            decreases index,
        {
            index -= 1;
            actions.push(InputAction::MouseButtonReleased { button: self.buttons[index] });
            assert(actions@ =~= expected.subrange(0, self.buttons.len() - index));
        }
        let mut index: usize = self.keys.len();
        while index > 0
            invariant
                index <= self.keys.len(),
                expected == release_actions(self@),
                actions@ == expected.subrange(0, self.buttons.len() + self.keys.len() - index),
            decreases index,
        {
            index -= 1;
            actions.push(InputAction::KeyReleased { key: self.keys[index].duplicate() });
            assert(actions@ =~= expected.subrange(0, self.buttons.len() + self.keys.len() - index));
        }
        assert(actions@ =~= expected);
        actions
    }

    fn append_terminal_release_events(&self, events: &mut Vec<InputEvent>, elapsed_time: ElapsedTime) -> (appended: usize)
        ensures
            appends_actions(old(events)@, final(events)@, release_actions(self@), elapsed_time.micros()),
            appended == release_actions(self@).len(),
    {
        let ghost actions = release_actions(self@);
        let start_length = events.len();
        let ghost start = events@.len();
        assert(events@.subrange(0, start as int) =~= events@);
        let mut index: usize = self.buttons.len();
        while index > 0
            invariant
                index <= self.buttons.len(),
                events@.len() == start + self.buttons.len() - index,
                appends_actions(
                    old(events)@,
                    events@,
                    actions.subrange(0, self.buttons.len() - index),
                    elapsed_time.micros(),
                ),
                actions == release_actions(self@),
                start == old(events)@.len(),
            decreases index,
        {
            index -= 1;
            let ghost before = events@;
            push_action(events, elapsed_time, InputAction::MouseButtonReleased { button: self.buttons[index] });
            proof {
                let appended = self.buttons.len() - index;
                assert(actions[appended - 1] == InputAction::MouseButtonReleased { button: self.buttons@[index as int] });
                assert(events@.subrange(0, start as int) =~= before.subrange(0, start as int));
                assert forall|k: int| 0 <= k < appended implies {
                    &&& (#[trigger] events@[start + k]).sequence == start + k
                    &&& events@[start + k].elapsed_time.micros() == elapsed_time.micros()
                    &&& events@[start + k].action == actions.subrange(0, appended)[k]
                } by {
                    if k < appended - 1 {
                        assert(events@[start + k] == before[start + k]);
                    }
                }
            }
        }
        let mut index: usize = self.keys.len();
        while index > 0
            invariant
                index <= self.keys.len(),
                events@.len() == start + self.buttons.len() + self.keys.len() - index,
                appends_actions(
                    old(events)@,
                    events@,
                    actions.subrange(0, self.buttons.len() + self.keys.len() - index),
                    elapsed_time.micros(),
                ),
                actions == release_actions(self@),
                start == old(events)@.len(),
            decreases index,
        {
            index -= 1;
            let ghost before = events@;
            let key = self.keys[index].duplicate();
            push_action(events, elapsed_time, InputAction::KeyReleased { key });
            proof {
                let appended = self.buttons.len() + self.keys.len() - index;
                assert(actions[appended - 1] == InputAction::KeyReleased { key: self.keys@[index as int] });
                assert(events@.subrange(0, start as int) =~= before.subrange(0, start as int));
                assert forall|k: int| 0 <= k < appended implies {
                    &&& (#[trigger] events@[start + k]).sequence == start + k
                    &&& events@[start + k].elapsed_time.micros() == elapsed_time.micros()
                    &&& events@[start + k].action == actions.subrange(0, appended)[k]
                } by {
                    if k < appended - 1 {
                        assert(events@[start + k] == before[start + k]);
                    }
                }
            }
        }
        assert(actions.subrange(0, actions.len() as int) =~= actions);
        events.len() - start_length
    }
}


/// Replays actions from a given state of held inputs.
pub open spec fn apply_actions(state: PressedModel, actions: Seq<InputAction>) -> PressedModel
    decreases actions.len(),
{
    if actions.len() == 0 {
        state
    } else {
        note_action(apply_actions(state, actions.drop_last()), actions.last())
    }
}

proof fn lemma_apply_concat(state: PressedModel, first: Seq<InputAction>, second: Seq<InputAction>)
    ensures
        apply_actions(state, first + second) == apply_actions(apply_actions(state, first), second),
    decreases second.len(),
{
    if second.len() == 0 {
        assert(first + second =~= first);
    } else {
        lemma_apply_concat(state, first, second.drop_last());
        assert((first + second).drop_last() =~= first + second.drop_last());
    }
}

proof fn lemma_pressed_after_extension(
    before: Seq<InputEvent>,
    after: Seq<InputEvent>,
    actions: Seq<InputAction>,
    micros: u64,
)
    requires
        appends_actions(before, after, actions, micros),
    ensures
        pressed_after(after) == apply_actions(pressed_after(before), actions),
    decreases actions.len(),
{
    if actions.len() == 0 {
        assert(after =~= before);
    } else {
        let shorter = after.drop_last();
        assert(shorter.subrange(0, before.len() as int) =~= after.subrange(0, before.len() as int));
        assert forall|k: int| 0 <= k < actions.drop_last().len() implies {
            &&& (#[trigger] shorter[before.len() + k]).sequence == before.len() + k
            &&& shorter[before.len() + k].elapsed_time.micros() == micros
            &&& shorter[before.len() + k].action == actions.drop_last()[k]
        } by {
            assert(after[before.len() + k].action == actions[k]);
        }
        lemma_pressed_after_extension(before, shorter, actions.drop_last(), micros);
        let k = actions.len() - 1;
        assert(after[before.len() + k].action == actions[k]);
        assert(after.last() == after[before.len() + k]);
    }
}

proof fn lemma_without_absent_key(keys: Seq<KeyDescriptor>, key: KeyDescriptor)
    requires
        !key_held(keys, key),
    ensures
        without_key(keys, key) == keys,
    decreases keys.len(),
{
    if keys.len() > 0 {
        assert(!key_held(keys.drop_last(), key)) by {
            if key_held(keys.drop_last(), key) {
                let i = choose|i: int| 0 <= i < keys.drop_last().len() && keys.drop_last()[i]@ == key@;
                assert(keys[i]@ == key@);
            }
        }
        lemma_without_absent_key(keys.drop_last(), key);
        assert(keys.last()@ != key@) by {
            if keys.last()@ == key@ {
                assert(keys[keys.len() - 1]@ == key@);
            }
        }
        assert(keys.drop_last().push(keys.last()) =~= keys);
    }
}

proof fn lemma_without_absent_button(buttons: Seq<MouseButton>, button: MouseButton)
    requires
        !buttons.contains(button),
    ensures
        without_button(buttons, button) == buttons,
    decreases buttons.len(),
{
    if buttons.len() > 0 {
        assert(!buttons.drop_last().contains(button)) by {
            if buttons.drop_last().contains(button) {
                let i = choose|i: int| 0 <= i < buttons.drop_last().len() && buttons.drop_last()[i] == button;
                assert(buttons[i] == button);
            }
        }
        lemma_without_absent_button(buttons.drop_last(), button);
        assert(buttons.last() != button) by {
            if buttons.last() == button {
                assert(buttons[buttons.len() - 1] == button);
            }
        }
        assert(buttons.drop_last().push(buttons.last()) =~= buttons);
    }
}

/// Members of `without_key(keys, key)` are members of `keys` with other content.
proof fn lemma_without_key_members(keys: Seq<KeyDescriptor>, key: KeyDescriptor)
    ensures
        forall|j: int|
            0 <= j < without_key(keys, key).len() ==> (#[trigger] without_key(keys, key)[j])@ != key@
                && exists|i: int| 0 <= i < keys.len() && keys[i] == without_key(keys, key)[j],
        without_key(keys, key).len() <= keys.len(),
    decreases keys.len(),
{
    if keys.len() > 0 {
        lemma_without_key_members(keys.drop_last(), key);
        let rest = without_key(keys.drop_last(), key);
        assert forall|j: int| 0 <= j < without_key(keys, key).len() implies (#[trigger] without_key(keys, key)[j])@ != key@
            && exists|i: int| 0 <= i < keys.len() && keys[i] == without_key(keys, key)[j] by {
            if j < rest.len() {
                let i = choose|i: int| 0 <= i < keys.drop_last().len() && keys.drop_last()[i] == rest[j];
                assert(keys[i] == without_key(keys, key)[j]);
            } else {
                assert(keys[keys.len() - 1] == without_key(keys, key)[j]);
            }
        }
    }
}

proof fn lemma_without_button_members(buttons: Seq<MouseButton>, button: MouseButton)
    ensures
        forall|j: int|
            0 <= j < without_button(buttons, button).len() ==> (#[trigger] without_button(buttons, button)[j]) != button
                && buttons.contains(without_button(buttons, button)[j]),
        without_button(buttons, button).len() <= buttons.len(),
    decreases buttons.len(),
{
    if buttons.len() > 0 {
        lemma_without_button_members(buttons.drop_last(), button);
        let rest = without_button(buttons.drop_last(), button);
        assert forall|j: int| 0 <= j < without_button(buttons, button).len() implies (#[trigger] without_button(buttons, button)[j]) != button
            && buttons.contains(without_button(buttons, button)[j]) by {
            if j < rest.len() {
                let i = choose|i: int| 0 <= i < buttons.drop_last().len() && buttons.drop_last()[i] == rest[j];
                assert(buttons[i] == rest[j]);
            } else {
                assert(buttons[buttons.len() - 1] == without_button(buttons, button)[j]);
            }
        }
    }
}

proof fn lemma_without_key_distinct(keys: Seq<KeyDescriptor>, key: KeyDescriptor)
    requires
        forall|i: int, j: int| 0 <= i < j < keys.len() ==> (#[trigger] keys[i])@ != (#[trigger] keys[j])@,
    ensures
        forall|i: int, j: int|
            0 <= i < j < without_key(keys, key).len() ==> (#[trigger] without_key(keys, key)[i])@
                != (#[trigger] without_key(keys, key)[j])@,
    decreases keys.len(),
{
    if keys.len() > 0 {
        let shorter = keys.drop_last();
        assert forall|i: int, j: int| 0 <= i < j < shorter.len() implies (#[trigger] shorter[i])@ != (#[trigger] shorter[j])@ by {
            assert(shorter[i] == keys[i] && shorter[j] == keys[j]);
        }
        lemma_without_key_distinct(shorter, key);
        lemma_without_key_members(shorter, key);
        let rest = without_key(shorter, key);
        if keys.last()@ != key@ {
            let result = rest.push(keys.last());
            assert forall|i: int, j: int| 0 <= i < j < result.len() implies (#[trigger] result[i])@ != (#[trigger] result[j])@ by {
                if j == result.len() - 1 {
                    let m = choose|m: int| 0 <= m < shorter.len() && shorter[m] == rest[i];
                    assert(keys[m] == rest[i]);
                    assert(keys[keys.len() - 1] == keys.last());
                } else {
                    assert(result[i] == rest[i] && result[j] == rest[j]);
                }
            }
        }
    }
}

proof fn lemma_without_button_distinct(buttons: Seq<MouseButton>, button: MouseButton)
    requires
        buttons.no_duplicates(),
    ensures
        without_button(buttons, button).no_duplicates(),
    decreases buttons.len(),
{
    if buttons.len() > 0 {
        let shorter = buttons.drop_last();
        assert(shorter.no_duplicates()) by {
            assert forall|i: int, j: int| 0 <= i < shorter.len() && 0 <= j < shorter.len() && i != j implies shorter[i] != shorter[j] by {
                assert(shorter[i] == buttons[i] && shorter[j] == buttons[j]);
            }
        }
        lemma_without_button_distinct(shorter, button);
        lemma_without_button_members(shorter, button);
        let rest = without_button(shorter, button);
        if buttons.last() != button {
            let result = rest.push(buttons.last());
            assert forall|i: int, j: int| 0 <= i < result.len() && 0 <= j < result.len() && i != j implies result[i] != result[j] by {
                if i == result.len() - 1 || j == result.len() - 1 {
                    let other = if i == result.len() - 1 { j } else { i };
                    assert(shorter.contains(rest[other]));
                    let m = choose|m: int| 0 <= m < shorter.len() && shorter[m] == rest[other];
                    assert(buttons[m] == rest[other]);
                    assert(buttons[buttons.len() - 1] == buttons.last());
                } else {
                    assert(result[i] == rest[i] && result[j] == rest[j]);
                }
            }
        }
    }
}

proof fn lemma_note_action_distinct(state: PressedModel, action: InputAction)
    requires
        pressed_distinct(state),
    ensures
        pressed_distinct(note_action(state, action)),
{
    match action {
        InputAction::KeyPressed { key } => {
            if !key_held(state.keys, key) {
                let keys = state.keys.push(key);
                assert forall|i: int, j: int| 0 <= i < j < keys.len() implies (#[trigger] keys[i])@ != (#[trigger] keys[j])@ by {
                    if j == keys.len() - 1 {
                        assert(state.keys[i]@ != key@);
                    } else {
                        assert(keys[i] == state.keys[i] && keys[j] == state.keys[j]);
                    }
                }
            }
        },
        InputAction::KeyReleased { key } => {
            lemma_without_key_distinct(state.keys, key);
        },
        InputAction::MouseButtonPressed { button } => {
            if !state.buttons.contains(button) {
                let buttons = state.buttons.push(button);
                assert forall|i: int, j: int| 0 <= i < buttons.len() && 0 <= j < buttons.len() && i != j implies buttons[i] != buttons[j] by {
                    if i == buttons.len() - 1 {
                        assert(state.buttons[j] != button);
                    } else if j == buttons.len() - 1 {
                        assert(state.buttons[i] != button);
                    } else {
                        assert(buttons[i] == state.buttons[i] && buttons[j] == state.buttons[j]);
                    }
                }
            }
        },
        InputAction::MouseButtonReleased { button } => {
            lemma_without_button_distinct(state.buttons, button);
        },
        _ => {},
    }
}

/// Replaying any events from a released state never holds a key or button twice.
pub proof fn lemma_pressed_after_distinct(events: Seq<InputEvent>)
    ensures
        pressed_distinct(pressed_after(events)),
    decreases events.len(),
{
    if events.len() > 0 {
        lemma_pressed_after_distinct(events.drop_last());
        lemma_note_action_distinct(pressed_after(events.drop_last()), events.last().action);
    }
}

proof fn lemma_release_buttons(state: PressedModel)
    requires
        state.buttons.no_duplicates(),
    ensures
        apply_actions(state, release_actions(PressedModel { keys: Seq::empty(), buttons: state.buttons }))
            == (PressedModel { keys: state.keys, buttons: Seq::empty() }),
    decreases state.buttons.len(),
{
    let buttons = state.buttons;
    let releases = release_actions(PressedModel { keys: Seq::empty(), buttons });
    if buttons.len() == 0 {
        assert(releases =~= Seq::<InputAction>::empty());
        assert(buttons =~= Seq::<MouseButton>::empty());
    } else {
        let shorter = buttons.drop_last();
        let last = buttons.last();
        let rest_releases = release_actions(PressedModel { keys: Seq::empty(), buttons: shorter });
        assert(releases =~= seq![InputAction::MouseButtonReleased { button: last }] + rest_releases);
        lemma_apply_concat(state, seq![InputAction::MouseButtonReleased { button: last }], rest_releases);
        assert(seq![InputAction::MouseButtonReleased { button: last }].drop_last() =~= Seq::<InputAction>::empty());
        assert(!shorter.contains(last)) by {
            if shorter.contains(last) {
                let i = choose|i: int| 0 <= i < shorter.len() && shorter[i] == last;
                assert(buttons[i] == buttons[buttons.len() - 1]);
            }
        }
        lemma_without_absent_button(shorter, last);
        assert(without_button(buttons, last) == shorter);
        let next = PressedModel { keys: state.keys, buttons: shorter };
        let release = InputAction::MouseButtonReleased { button: last };
        assert(apply_actions(state, seq![release]) == note_action(apply_actions(state, Seq::empty()), release));
        assert(apply_actions(state, seq![release]) == next);
        assert(shorter.no_duplicates()) by {
            assert forall|i: int, j: int| 0 <= i < shorter.len() && 0 <= j < shorter.len() && i != j implies shorter[i] != shorter[j] by {
                assert(shorter[i] == buttons[i] && shorter[j] == buttons[j]);
            }
        }
        lemma_release_buttons(next);
    }
}

proof fn lemma_release_keys(state: PressedModel)
    requires
        forall|i: int, j: int|
            0 <= i < j < state.keys.len() ==> (#[trigger] state.keys[i])@ != (#[trigger] state.keys[j])@,
    ensures
        apply_actions(state, release_actions(PressedModel { keys: state.keys, buttons: Seq::empty() }))
            == (PressedModel { keys: Seq::empty(), buttons: state.buttons }),
    decreases state.keys.len(),
{
    let keys = state.keys;
    let releases = release_actions(PressedModel { keys, buttons: Seq::empty() });
    if keys.len() == 0 {
        assert(releases =~= Seq::<InputAction>::empty());
        assert(keys =~= Seq::<KeyDescriptor>::empty());
    } else {
        let shorter = keys.drop_last();
        let last = keys.last();
        let rest_releases = release_actions(PressedModel { keys: shorter, buttons: Seq::empty() });
        assert(releases =~= seq![InputAction::KeyReleased { key: last }] + rest_releases);
        lemma_apply_concat(state, seq![InputAction::KeyReleased { key: last }], rest_releases);
        assert(seq![InputAction::KeyReleased { key: last }].drop_last() =~= Seq::<InputAction>::empty());
        assert(!key_held(shorter, last)) by {
            if key_held(shorter, last) {
                let i = choose|i: int| 0 <= i < shorter.len() && shorter[i]@ == last@;
                assert(keys[i]@ == keys[keys.len() - 1]@);
            }
        }
        lemma_without_absent_key(shorter, last);
        assert(without_key(keys, last) == shorter);
        let next = PressedModel { keys: shorter, buttons: state.buttons };
        let release = InputAction::KeyReleased { key: last };
        assert(apply_actions(state, seq![release]) == note_action(apply_actions(state, Seq::empty()), release));
        assert(apply_actions(state, seq![release]) == next);
        assert forall|i: int, j: int| 0 <= i < j < shorter.len() implies (#[trigger] shorter[i])@ != (#[trigger] shorter[j])@ by {
            assert(shorter[i] == keys[i] && shorter[j] == keys[j]);
        }
        lemma_release_keys(next);
    }
}

/// Releasing every held input, buttons first and then keys, each in reverse
/// order of pressing, leaves nothing held.
pub proof fn lemma_release_actions_release_everything(state: PressedModel)
    requires
        pressed_distinct(state),
    ensures
        apply_actions(state, release_actions(state)) == no_pressed_input(),
{
    let button_releases = release_actions(PressedModel { keys: Seq::empty(), buttons: state.buttons });
    let key_releases = release_actions(PressedModel { keys: state.keys, buttons: Seq::empty() });
    assert(release_actions(state) =~= button_releases + key_releases);
    lemma_apply_concat(state, button_releases, key_releases);
    lemma_release_buttons(state);
    lemma_release_keys(PressedModel { keys: state.keys, buttons: Seq::empty() });
    assert(no_pressed_input() == PressedModel { keys: Seq::<KeyDescriptor>::empty(), buttons: Seq::<MouseButton>::empty() });
}

proof fn lemma_appended_in_order(before: Seq<InputEvent>, after: Seq<InputEvent>, actions: Seq<InputAction>, micros: u64)
    requires
        events_in_order(before),
        appends_actions(before, after, actions, micros),
        micros >= duration_micros(before),
    ensures
        events_in_order(after),
{
    assert forall|index: int| 0 <= index < after.len() implies event_in_order(after, index) by {
        if index < before.len() {
            assert(after[index] == after.subrange(0, before.len() as int)[index]);
            assert(event_in_order(before, index));
            if index > 0 {
                assert(after[index - 1] == after.subrange(0, before.len() as int)[index - 1]);
            }
        } else {
            let k = index - before.len();
            assert(after[before.len() + k].sequence == before.len() + k);
            if index > 0 {
                if k == 0 {
                    assert(after[index - 1] == after.subrange(0, before.len() as int)[index - 1]);
                } else {
                    assert(after[before.len() + (k - 1)].elapsed_time.micros() == micros);
                }
            }
        }
    }
}

/// A summary of synthetic releases appended while finalizing a captured recording.
#[derive(Debug, Clone, Copy, PartialEq, Eq, Default)]
pub struct RecordingFinalizationReport {
    pub appended_release_events: usize,
}

/// Finalizes a captured recording so that its event stream ends with nothing
/// held: every key and button still held at the end is released, buttons first
/// and then keys, each in reverse order of pressing, at the time of the last
/// event. The result is always a valid recording with the same metadata.
pub fn finalize_recording_session(recording: Recording) -> (result: Result<
    (Recording, RecordingFinalizationReport),
    ValidationError,
>)
    ensures
        result matches Ok((finalized, report)) && {
            let releases = release_actions(pressed_after(recording@.1));
            &&& finalized@.0 == recording@.0
            &&& appends_actions(recording@.1, finalized@.1, releases, duration_micros(recording@.1))
            &&& report.appended_release_events == releases.len()
        },
{
    let boundary_elapsed_time = recording.duration();
    let ghost original = recording@;
    let (metadata, mut events) = recording.into_parts();
    let mut state = PressedInputState::new();
    let mut index: usize = 0;
    while index < events.len()
        invariant
            index <= events.len(),
            events@ == original.1,
            state@ == pressed_after(events@.subrange(0, index as int)),
        decreases events.len() - index,
    {
        state.note_action(&events[index].action);
        let ghost prefix = events@.subrange(0, index + 1);
        assert(prefix.drop_last() =~= events@.subrange(0, index as int));
        index += 1;
    }
    assert(events@.subrange(0, events.len() as int) =~= events@);
    let appended_release_events = state.append_terminal_release_events(&mut events, boundary_elapsed_time);
    proof {
        lemma_events_error_none(original.1);
        lemma_appended_in_order(original.1, events@, release_actions(state@), boundary_elapsed_time.micros());
        lemma_events_error_none(events@);
    }
    match Recording::new(metadata, events) {
        Ok(finalized) => Ok((finalized, RecordingFinalizationReport { appended_release_events })),
        Err(error) => Err(error),
    }
}

/// A finalized recording ends with nothing held.
pub proof fn lemma_finalized_recording_is_released(
    events: Seq<InputEvent>,
    finalized: Seq<InputEvent>,
)
    requires
        appends_actions(events, finalized, release_actions(pressed_after(events)), duration_micros(events)),
    ensures
        pressed_after(finalized) == no_pressed_input(),
{
    lemma_pressed_after_extension(events, finalized, release_actions(pressed_after(events)), duration_micros(events));
    lemma_pressed_after_distinct(events);
    lemma_release_actions_release_everything(pressed_after(events));
}


/// Events in order never go back in time.
pub proof fn lemma_in_order_monotone(events: Seq<InputEvent>, earlier: int, later: int)
    requires
        events_in_order(events),
        0 <= earlier <= later < events.len(),
    ensures
        events[earlier].elapsed_time.micros() <= events[later].elapsed_time.micros(),
    decreases later - earlier,
{
    if earlier < later {
        lemma_in_order_monotone(events, earlier, later - 1);
        assert(event_in_order(events, later));
    }
}

/// The progress of preparing playback over the first events: the positions of
/// the events kept, the inputs held after them, and the number of unmatched
/// releases skipped.
pub struct PrepareModel {
    pub kept: Seq<int>,
    pub state: PressedModel,
    pub skipped: nat,
}

/// Prepares the first `count` events: a release of a key or button that is not
/// held is skipped, every other event is kept and replayed.
pub open spec fn prepare_fold(events: Seq<InputEvent>, count: int) -> PrepareModel
    decreases count,
{
    if count <= 0 {
        PrepareModel { kept: Seq::empty(), state: no_pressed_input(), skipped: 0 }
    } else {
        let previous = prepare_fold(events, count - 1);
        let action = events[count - 1].action;
        if is_unmatched_release(previous.state, action) {
            PrepareModel { kept: previous.kept, state: previous.state, skipped: previous.skipped + 1 }
        } else {
            PrepareModel {
                kept: previous.kept.push(count - 1),
                state: note_action(previous.state, action),
                skipped: previous.skipped,
            }
        }
    }
}

/// `prepared` renumbers the events of `events` at positions `kept`, keeping their
/// times and actions.
pub open spec fn keeps_events(events: Seq<InputEvent>, prepared: Seq<InputEvent>, kept: Seq<int>) -> bool {
    &&& prepared.len() == kept.len()
    &&& forall|j: int|
        0 <= j < kept.len() ==> {
            &&& (#[trigger] prepared[j]).sequence == j
            &&& prepared[j].elapsed_time == events[kept[j]].elapsed_time
            &&& prepared[j].action == events[kept[j]].action
        }
}

/// `prepared` is the playback plan of `events`: the kept events, renumbered,
/// followed by releases of whatever is still held at the end, stamped with the
/// time of the last event.
pub open spec fn is_prepared_plan(events: Seq<InputEvent>, prepared: Seq<InputEvent>, skipped: nat, appended: nat) -> bool {
    let model = prepare_fold(events, events.len() as int);
    let kept_count = model.kept.len() as int;
    &&& kept_count <= prepared.len()
    &&& keeps_events(events, prepared.subrange(0, kept_count), model.kept)
    &&& appends_actions(prepared.subrange(0, kept_count), prepared, release_actions(model.state), duration_micros(events))
    &&& skipped == model.skipped
    &&& appended == release_actions(model.state).len()
}

proof fn lemma_prepare_fold_shape(events: Seq<InputEvent>, count: int)
    requires
        0 <= count <= events.len(),
    ensures
        prepare_fold(events, count).kept.len() + prepare_fold(events, count).skipped == count,
        forall|j: int| 0 <= j < prepare_fold(events, count).kept.len() ==> 0 <= #[trigger] prepare_fold(events, count).kept[j] < count,
        forall|i: int, j: int| 0 <= i < j < prepare_fold(events, count).kept.len() ==> #[trigger] prepare_fold(events, count).kept[i] < #[trigger] prepare_fold(events, count).kept[j],
    decreases count,
{
    if count > 0 {
        lemma_prepare_fold_shape(events, count - 1);
    }
}

/// A summary of the cleanup applied while building a playback plan.
#[derive(Debug, Clone, Copy, PartialEq, Eq, Default)]
pub struct PlaybackPreparationReport {
    pub skipped_unmatched_release_events: usize,
    pub appended_release_events: usize,
}

/// A playback plan derived from a recording, which may differ from it.
#[derive(Debug, PartialEq, Eq)]
pub struct PreparedPlaybackPlan {
    recording: Recording,
    report: PlaybackPreparationReport,
}

impl View for PreparedPlaybackPlan {
    type V = ((crate::recording::RecordingMetadataView, Seq<InputEvent>), PlaybackPreparationReport);

    closed spec fn view(&self) -> ((crate::recording::RecordingMetadataView, Seq<InputEvent>), PlaybackPreparationReport) {
        (self.recording@, self.report)
    }
}

impl PreparedPlaybackPlan {
    /// Returns the validated recording-shaped event stream to dispatch.
    pub fn recording(&self) -> (recording: &Recording)
        ensures
            recording@ == self@.0,
    {
        &self.recording
    }

    /// Returns a summary of the cleanup applied during preparation.
    pub fn report(&self) -> (report: PlaybackPreparationReport)
        ensures
            report == self@.1,
    {
        self.report
    }

    /// Returns the number of prepared events that will be dispatched.
    pub fn event_count(&self) -> (count: usize)
        ensures
            count == self@.0.1.len(),
    {
        self.recording.event_count()
    }
}

/// Builds a playback plan without changing the recording: releases of keys or
/// buttons that are not held are skipped, and whatever is still held at the end
/// is released, buttons first and then keys, each in reverse order of pressing,
/// at the time of the last event. The plan is always a valid recording with the
/// same metadata.
pub fn prepare_playback_plan(recording: &Recording) -> (result: Result<PreparedPlaybackPlan, ValidationError>)
    ensures
        result matches Ok(plan) && {
            &&& plan@.0.0 == recording@.0
            &&& is_prepared_plan(
                recording@.1,
                plan@.0.1,
                plan@.1.skipped_unmatched_release_events as nat,
                plan@.1.appended_release_events as nat,
            )
        },
{
    let events = recording.events();
    let mut prepared: Vec<InputEvent> = Vec::new();
    let mut state = PressedInputState::new();
    let mut skipped: usize = 0;
    let mut index: usize = 0;
    while index < events.len()
        invariant
            index <= events.len(),
            events@ == recording@.1,
            state@ == prepare_fold(events@, index as int).state,
            skipped == prepare_fold(events@, index as int).skipped,
            keeps_events(events@, prepared@, prepare_fold(events@, index as int).kept),
        decreases events.len() - index,
    {
        proof {
            lemma_prepare_fold_shape(events@, index as int);
        }
        let event = &events[index];
        let skip = match &event.action {
            InputAction::KeyReleased { key } => !state.is_key_pressed(key),
            InputAction::MouseButtonReleased { button } => !state.is_button_pressed(*button),
            _ => false,
        };
        if skip {
            skipped += 1;
        } else {
            let ghost before = prepared@;
            push_action(&mut prepared, event.elapsed_time, event.action.duplicate());
            state.note_action(&event.action);
            proof {
                let kept = prepare_fold(events@, index + 1).kept;
                assert forall|j: int| 0 <= j < kept.len() implies {
                    &&& (#[trigger] prepared@[j]).sequence == j
                    &&& prepared@[j].elapsed_time == events@[kept[j]].elapsed_time
                    &&& prepared@[j].action == events@[kept[j]].action
                } by {
                    if j < before.len() {
                        assert(prepared@[j] == before[j]);
                    }
                }
            }
        }
        index += 1;
    }
    let kept_count = prepared.len();
    let ghost model = prepare_fold(events@, events.len() as int);
    let ghost kept_part = prepared@;
    let boundary = recording.duration();
    let appended = state.append_terminal_release_events(&mut prepared, boundary);
    proof {
        lemma_prepare_fold_shape(events@, events.len() as int);
        lemma_events_error_none(events@);
        assert(prepared@.subrange(0, kept_count as int) == kept_part);
        assert forall|index: int| 0 <= index < kept_part.len() implies event_in_order(kept_part, index) by {
            if index > 0 {
                lemma_in_order_monotone(events@, model.kept[index - 1], model.kept[index]);
            }
        }
        if kept_part.len() > 0 {
            lemma_in_order_monotone(events@, model.kept[kept_part.len() - 1], events@.len() - 1);
        }
        lemma_appended_in_order(kept_part, prepared@, release_actions(state@), boundary.micros());
        lemma_events_error_none(prepared@);
    }
    let metadata = crate::recording::RecordingMetadata {
        schema_version: recording.metadata().schema_version,
        title: crate::event::optional_text_copy(&recording.metadata().title),
        display: crate::recording::duplicate_display(&recording.metadata().display),
    };
    match Recording::new(metadata, prepared) {
        Ok(prepared_recording) => Ok(PreparedPlaybackPlan {
            recording: prepared_recording,
            report: PlaybackPreparationReport {
                skipped_unmatched_release_events: skipped,
                appended_release_events: appended,
            },
        }),
        Err(error) => Err(error),
    }
}


/// Every release in `events` releases a key or button held at that point.
pub open spec fn releases_are_matched(events: Seq<InputEvent>) -> bool {
    forall|i: int|
        0 <= i < events.len() ==> !is_unmatched_release(
            pressed_after(events.subrange(0, i)),
            #[trigger] events[i].action,
        )
}

proof fn lemma_kept_events_state(events: Seq<InputEvent>, prepared: Seq<InputEvent>, count: int)
    requires
        0 <= count <= events.len(),
        keeps_events(events, prepared, prepare_fold(events, count).kept),
    ensures
        pressed_after(prepared) == prepare_fold(events, count).state,
        releases_are_matched(prepared),
    decreases count,
{
    if count > 0 {
        let previous = prepare_fold(events, count - 1);
        let action = events[count - 1].action;
        if is_unmatched_release(previous.state, action) {
            lemma_kept_events_state(events, prepared, count - 1);
        } else {
            let shorter = prepared.drop_last();
            assert forall|j: int| 0 <= j < previous.kept.len() implies {
                &&& (#[trigger] shorter[j]).sequence == j
                &&& shorter[j].elapsed_time == events[previous.kept[j]].elapsed_time
                &&& shorter[j].action == events[previous.kept[j]].action
            } by {
                assert(shorter[j] == prepared[j]);
            }
            lemma_kept_events_state(events, shorter, count - 1);
            let last = previous.kept.len() as int;
            assert(prepared[last].action == action);
            assert(prepared.last() == prepared[last]);
            assert forall|i: int| 0 <= i < prepared.len() implies !is_unmatched_release(
                pressed_after(prepared.subrange(0, i)),
                #[trigger] prepared[i].action,
            ) by {
                if i < last {
                    assert(shorter.subrange(0, i) =~= prepared.subrange(0, i));
                    assert(shorter[i] == prepared[i]);
                } else {
                    assert(prepared.subrange(0, i) =~= shorter);
                }
            }
        }
    } else {
        assert(prepared =~= Seq::<InputEvent>::empty());
    }
}

proof fn lemma_release_buttons_prefix(keys: Seq<KeyDescriptor>, buttons: Seq<MouseButton>, m: int)
    requires
        buttons.no_duplicates(),
        0 <= m <= buttons.len(),
    ensures
        apply_actions(
            PressedModel { keys, buttons },
            release_actions(PressedModel { keys, buttons }).subrange(0, m),
        ) == (PressedModel { keys, buttons: buttons.subrange(0, buttons.len() - m) }),
        m < buttons.len() ==> !is_unmatched_release(
            PressedModel { keys, buttons: buttons.subrange(0, buttons.len() - m) },
            release_actions(PressedModel { keys, buttons })[m],
        ),
    decreases m,
{
    let state = PressedModel { keys, buttons };
    let releases = release_actions(state);
    let n = buttons.len() as int;
    if m == 0 {
        assert(releases.subrange(0, 0) =~= Seq::<InputAction>::empty());
        assert(buttons.subrange(0, n) =~= buttons);
    } else {
        lemma_release_buttons_prefix(keys, buttons, m - 1);
        assert(releases.subrange(0, m).drop_last() =~= releases.subrange(0, m - 1));
        let held = buttons.subrange(0, n - m + 1);
        let button = buttons[n - m];
        assert(releases[m - 1] == InputAction::MouseButtonReleased { button });
        assert(held.last() == button);
        let remaining = held.drop_last();
        assert(remaining =~= buttons.subrange(0, n - m));
        assert(!remaining.contains(button)) by {
            if remaining.contains(button) {
                let i = choose|i: int| 0 <= i < remaining.len() && remaining[i] == button;
                assert(buttons[i] == buttons[n - m]);
            }
        }
        lemma_without_absent_button(remaining, button);
    }
    if m < n {
        let button = buttons[n - 1 - m];
        assert(releases[m] == InputAction::MouseButtonReleased { button });
        assert(buttons.subrange(0, n - m)[n - 1 - m] == button);
    }
}

proof fn lemma_release_keys_prefix(keys: Seq<KeyDescriptor>, m: int)
    requires
        forall|i: int, j: int| 0 <= i < j < keys.len() ==> (#[trigger] keys[i])@ != (#[trigger] keys[j])@,
        0 <= m <= keys.len(),
    ensures
        apply_actions(
            PressedModel { keys, buttons: Seq::empty() },
            release_actions(PressedModel { keys, buttons: Seq::empty() }).subrange(0, m),
        ) == (PressedModel { keys: keys.subrange(0, keys.len() - m), buttons: Seq::empty() }),
        m < keys.len() ==> !is_unmatched_release(
            PressedModel { keys: keys.subrange(0, keys.len() - m), buttons: Seq::empty() },
            release_actions(PressedModel { keys, buttons: Seq::empty() })[m],
        ),
    decreases m,
{
    let state = PressedModel { keys, buttons: Seq::empty() };
    let releases = release_actions(state);
    let n = keys.len() as int;
    if m == 0 {
        assert(releases.subrange(0, 0) =~= Seq::<InputAction>::empty());
        assert(keys.subrange(0, n) =~= keys);
    } else {
        lemma_release_keys_prefix(keys, m - 1);
        assert(releases.subrange(0, m).drop_last() =~= releases.subrange(0, m - 1));
        let held = keys.subrange(0, n - m + 1);
        let key = keys[n - m];
        assert(releases[m - 1] == InputAction::KeyReleased { key });
        assert(held.last() == key);
        let remaining = held.drop_last();
        assert(remaining =~= keys.subrange(0, n - m));
        assert(!key_held(remaining, key)) by {
            if key_held(remaining, key) {
                let i = choose|i: int| 0 <= i < remaining.len() && remaining[i]@ == key@;
                assert(keys[i]@ == keys[n - m]@);
            }
        }
        lemma_without_absent_key(remaining, key);
    }
    if m < n {
        let key = keys[n - 1 - m];
        assert(releases[m] == InputAction::KeyReleased { key });
        assert(keys.subrange(0, n - m)[n - 1 - m] == key);
    }
}

/// Each release in `release_actions(state)` releases something held at that point.
proof fn lemma_release_actions_matched(state: PressedModel, k: int)
    requires
        pressed_distinct(state),
        0 <= k < release_actions(state).len(),
    ensures
        !is_unmatched_release(
            apply_actions(state, release_actions(state).subrange(0, k)),
            release_actions(state)[k],
        ),
{
    let releases = release_actions(state);
    let nb = state.buttons.len() as int;
    let button_releases = release_actions(PressedModel { keys: Seq::empty(), buttons: state.buttons });
    let key_state = PressedModel { keys: state.keys, buttons: Seq::empty() };
    let key_releases = release_actions(key_state);
    assert(releases =~= button_releases + key_releases);
    if k < nb {
        lemma_release_buttons_prefix(state.keys, state.buttons, k);
        assert(release_actions(state).subrange(0, k) =~= releases.subrange(0, k));
    } else {
        let m = k - nb;
        lemma_release_buttons_prefix(state.keys, state.buttons, nb);
        assert(releases.subrange(0, nb) =~= button_releases);
        assert(state.buttons.subrange(0, 0) =~= Seq::<MouseButton>::empty());
        assert(releases.subrange(0, k) =~= releases.subrange(0, nb) + key_releases.subrange(0, m));
        lemma_apply_concat(state, releases.subrange(0, nb), key_releases.subrange(0, m));
        lemma_release_keys_prefix(state.keys, m);
        assert(releases[k] == key_releases[m]);
    }
}

/// A prepared playback plan releases only what it holds and ends with nothing
/// held.
pub proof fn lemma_prepared_plan_is_balanced(
    events: Seq<InputEvent>,
    prepared: Seq<InputEvent>,
    skipped: nat,
    appended: nat,
)
    requires
        is_prepared_plan(events, prepared, skipped, appended),
    ensures
        releases_are_matched(prepared),
        pressed_after(prepared) == no_pressed_input(),
{
    let model = prepare_fold(events, events.len() as int);
    let kept_count = model.kept.len() as int;
    let kept_part = prepared.subrange(0, kept_count);
    let releases = release_actions(model.state);
    lemma_kept_events_state(events, kept_part, events.len() as int);
    lemma_pressed_after_extension(kept_part, prepared, releases, duration_micros(events));
    lemma_pressed_after_distinct(kept_part);
    lemma_release_actions_release_everything(model.state);
    assert forall|i: int| 0 <= i < prepared.len() implies !is_unmatched_release(
        pressed_after(prepared.subrange(0, i)),
        #[trigger] prepared[i].action,
    ) by {
        if i < kept_count {
            assert(kept_part.subrange(0, i) =~= prepared.subrange(0, i));
            assert(kept_part[i] == prepared[i]);
        } else {
            let k = i - kept_count;
            let partial = prepared.subrange(0, i);
            assert(partial.subrange(0, kept_count) =~= kept_part);
            assert forall|j: int| 0 <= j < releases.subrange(0, k).len() implies {
                &&& (#[trigger] partial[kept_part.len() + j]).sequence == kept_part.len() + j
                &&& partial[kept_part.len() + j].elapsed_time.micros() == duration_micros(events)
                &&& partial[kept_part.len() + j].action == releases.subrange(0, k)[j]
            } by {
                assert(partial[kept_part.len() + j] == prepared[kept_part.len() + j]);
            }
            lemma_pressed_after_extension(kept_part, partial, releases.subrange(0, k), duration_micros(events));
            lemma_release_actions_matched(model.state, k);
            assert(prepared[kept_count + k].action == releases[k]);
        }
    }
}

proof fn lemma_matched_events_are_all_kept(events: Seq<InputEvent>, count: int)
    requires
        0 <= count <= events.len(),
        releases_are_matched(events),
    ensures
        prepare_fold(events, count).kept == Seq::new(count as nat, |j: int| j),
        prepare_fold(events, count).state == pressed_after(events.subrange(0, count)),
        prepare_fold(events, count).skipped == 0,
    decreases count,
{
    if count > 0 {
        lemma_matched_events_are_all_kept(events, count - 1);
        let prefix = events.subrange(0, count);
        assert(prefix.drop_last() =~= events.subrange(0, count - 1));
        assert(!is_unmatched_release(pressed_after(events.subrange(0, count - 1)), events[count - 1].action));
        assert(prepare_fold(events, count).kept =~= Seq::new(count as nat, |j: int| j));
    } else {
        assert(prepare_fold(events, count).kept =~= Seq::new(count as nat, |j: int| j));
        assert(events.subrange(0, 0) =~= Seq::<InputEvent>::empty());
    }
}

/// Preparing a prepared plan again changes nothing: no release is skipped, none
/// is appended, and the events come out as they went in.
pub proof fn lemma_prepare_is_idempotent(
    events: Seq<InputEvent>,
    prepared: Seq<InputEvent>,
    skipped: nat,
    appended: nat,
    again: Seq<InputEvent>,
    skipped_again: nat,
    appended_again: nat,
)
    requires
        is_prepared_plan(events, prepared, skipped, appended),
        is_prepared_plan(prepared, again, skipped_again, appended_again),
    ensures
        again == prepared,
        skipped_again == 0,
        appended_again == 0,
{
    lemma_prepared_plan_is_balanced(events, prepared, skipped, appended);
    lemma_matched_events_are_all_kept(prepared, prepared.len() as int);
    assert(prepared.subrange(0, prepared.len() as int) =~= prepared);
    let model = prepare_fold(events, events.len() as int);
    let kept_count = model.kept.len() as int;
    let kept_part = prepared.subrange(0, kept_count);
    let releases = release_actions(model.state);
    assert forall|j: int| 0 <= j < prepared.len() implies (#[trigger] prepared[j]).sequence == j by {
        if j < kept_count {
            assert(kept_part[j] == prepared[j]);
        } else {
            assert(prepared[kept_part.len() + (j - kept_count)] == prepared[j]);
        }
    }
    let again_model = prepare_fold(prepared, prepared.len() as int);
    assert(again.subrange(0, again_model.kept.len() as int) =~= again);
    assert forall|j: int| 0 <= j < again.len() implies #[trigger] again[j] == prepared[j] by {
        assert(again.subrange(0, again_model.kept.len() as int)[j] == again[j]);
        assert(again_model.kept[j] == j);
    }
    assert(again =~= prepared);
}

/// Finalizing a finalized recording again appends nothing and leaves the
/// events as they are.
pub proof fn lemma_finalize_is_idempotent(
    events: Seq<InputEvent>,
    finalized: Seq<InputEvent>,
    again: Seq<InputEvent>,
)
    requires
        appends_actions(events, finalized, release_actions(pressed_after(events)), duration_micros(events)),
        appends_actions(
            finalized,
            again,
            release_actions(pressed_after(finalized)),
            duration_micros(finalized),
        ),
    ensures
        release_actions(pressed_after(finalized)).len() == 0,
        again == finalized,
{
    lemma_finalized_recording_is_released(events, finalized);
    assert(again.subrange(0, finalized.len() as int) =~= again);
}

} // verus!
