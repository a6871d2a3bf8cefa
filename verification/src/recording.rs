use vstd::prelude::*;

use crate::error::ValidationError;
use crate::event::{
    action_kind, current_schema_version, display_error, ActionKind, DisplayMetadataView, DisplayMetadata, ElapsedTime,
    EventOffset, InputEvent, SchemaVersion, CURRENT_SCHEMA_VERSION_NUMBER,
};
use crate::text::{is_blank, is_blank_chars, chars_of};

verus! {

/// The schema version a recording gets when its data names none.
pub fn default_schema_version() -> (version: SchemaVersion)
    ensures
        version.number() == CURRENT_SCHEMA_VERSION_NUMBER,
{
    current_schema_version()
}

/// Recording-level metadata that informs validation and replay policy.
#[derive(Debug, Clone, PartialEq, Eq)]
pub struct RecordingMetadata {
    pub schema_version: SchemaVersion,
    pub title: Option<String>,
    pub display: DisplayMetadata,
}

/// The content of recording metadata, with the display's monitors as a sequence.
pub struct RecordingMetadataView {
    pub schema_version: SchemaVersion,
    pub title: Option<String>,
    pub display: DisplayMetadataView,
}

impl View for RecordingMetadata {
    type V = RecordingMetadataView;

    open spec fn view(&self) -> RecordingMetadataView {
        RecordingMetadataView {
            schema_version: self.schema_version,
            title: self.title,
            display: self.display@,
        }
    }
}

/// The error recording metadata reports: an unsupported schema version, then a
/// blank title, then the display.
pub open spec fn metadata_error(metadata: RecordingMetadataView) -> Option<ValidationError> {
    if metadata.schema_version.number() != CURRENT_SCHEMA_VERSION_NUMBER {
        Some(
            ValidationError::UnsupportedSchemaVersion {
                expected: CURRENT_SCHEMA_VERSION_NUMBER,
                found: metadata.schema_version.number(),
            },
        )
    } else if metadata.title is Some && is_blank(metadata.title->0@) {
        Some(ValidationError::EmptyTitle)
    } else {
        display_error(metadata.display)
    }
}

/// Event `index` carries sequence number `index` and does not start before the
/// event in front of it.
pub open spec fn event_in_order(events: Seq<InputEvent>, index: int) -> bool {
    &&& events[index].sequence == index
    &&& index > 0 ==> events[index - 1].elapsed_time.micros()
        <= events[index].elapsed_time.micros()
}

/// The error for an out-of-order event: a wrong sequence number first, then a
/// step back in time.
pub open spec fn event_order_error(events: Seq<InputEvent>, index: int) -> ValidationError {
    if events[index].sequence != index {
        ValidationError::NonConsecutiveSequence {
            expected: index as u64,
            found: events[index].sequence,
        }
    } else {
        ValidationError::NonMonotonicElapsedTime {
            previous_micros: events[index - 1].elapsed_time.micros(),
            found_micros: events[index].elapsed_time.micros(),
        }
    }
}

/// `index` is the first event that is out of order.
pub open spec fn is_first_disorder(events: Seq<InputEvent>, index: int) -> bool {
    &&& 0 <= index < events.len()
    &&& !event_in_order(events, index)
    &&& forall|earlier: int| 0 <= earlier < index ==> event_in_order(events, earlier)
}

/// The error the event stream reports, at its first out-of-order event.
pub open spec fn events_error(events: Seq<InputEvent>) -> Option<ValidationError> {
    if exists|index: int| is_first_disorder(events, index) {
        Some(event_order_error(events, choose|index: int| is_first_disorder(events, index)))
    } else {
        None
    }
}

/// The error a recording reports: its metadata first, then its events.
pub open spec fn recording_error(metadata: RecordingMetadataView, events: Seq<InputEvent>) -> Option<
    ValidationError,
> {
    match metadata_error(metadata) {
        Some(error) => Some(error),
        None => events_error(events),
    }
}

/// Every event is in order: consecutive sequence numbers from zero and
/// non-decreasing elapsed times.
pub open spec fn events_in_order(events: Seq<InputEvent>) -> bool {
    forall|index: int| 0 <= index < events.len() ==> event_in_order(events, index)
}

pub proof fn lemma_events_error_none(events: Seq<InputEvent>)
    ensures
        (events_error(events) is None) == events_in_order(events),
{
    if !events_in_order(events) {
        let bad = choose|index: int| 0 <= index < events.len() && !event_in_order(events, index);
        lemma_first_disorder_exists(events, bad);
    }
}

proof fn lemma_first_disorder_exists(events: Seq<InputEvent>, bad: int)
    requires
        0 <= bad < events.len(),
        !event_in_order(events, bad),
    ensures
        exists|index: int| is_first_disorder(events, index),
    decreases bad,
{
    if forall|earlier: int| 0 <= earlier < bad ==> event_in_order(events, earlier) {
        assert(is_first_disorder(events, bad));
    } else {
        let earlier = choose|earlier: int| 0 <= earlier < bad && !event_in_order(events, earlier);
        lemma_first_disorder_exists(events, earlier);
    }
}

/// Checks recording metadata and an event stream against the recording rules,
/// reporting the first rule broken.
pub fn validate_parts(metadata: &RecordingMetadata, events: &[InputEvent]) -> (result: Result<
    (),
    ValidationError,
>)
    ensures
        match recording_error(metadata@, events@) {
            Some(error) => result == Err::<(), ValidationError>(error),
            None => result is Ok,
        },
{
    if metadata.schema_version.get() != CURRENT_SCHEMA_VERSION_NUMBER {
        return Err(
            ValidationError::UnsupportedSchemaVersion {
                expected: CURRENT_SCHEMA_VERSION_NUMBER,
                found: metadata.schema_version.get(),
            },
        );
    }
    match &metadata.title {
        Some(title) => {
            let title_chars = chars_of(title.as_str());
            if is_blank_chars(title_chars.as_slice()) {
                return Err(ValidationError::EmptyTitle);
            }
        },
        None => {},
    }
    metadata.display.validate()?;
    let mut index: usize = 0;
    while index < events.len()
        invariant
            index <= events.len(),
            metadata_error(metadata@) is None,
            forall|earlier: int| 0 <= earlier < index ==> event_in_order(events@, earlier),
        decreases events.len() - index,
    {
        let event = &events[index];
        let expected_sequence = index as u64;
        if event.sequence != expected_sequence {
            proof {
                lemma_first_disorder_is_unique(events@, index as int);
            }
            return Err(
                ValidationError::NonConsecutiveSequence {
                    expected: expected_sequence,
                    found: event.sequence,
                },
            );
        }
        if index > 0 {
            let previous_micros = events[index - 1].elapsed_time.as_micros();
            if event.elapsed_time.as_micros() < previous_micros {
                proof {
                    lemma_first_disorder_is_unique(events@, index as int);
                }
                return Err(
                    ValidationError::NonMonotonicElapsedTime {
                        previous_micros,
                        found_micros: event.elapsed_time.as_micros(),
                    },
                );
            }
        }
        index += 1;
    }
    proof {
        lemma_events_error_none(events@);
    }
    Ok(())
}

proof fn lemma_first_disorder_is_unique(events: Seq<InputEvent>, index: int)
    requires
        is_first_disorder(events, index),
    ensures
        events_error(events) == Some(event_order_error(events, index)),
{
    let chosen = choose|i: int| is_first_disorder(events, i);
    assert(chosen == index) by {
        if chosen < index {
            assert(event_in_order(events, chosen));
        } else if chosen > index {
            assert(event_in_order(events, index));
        }
    }
}

/// Counts of canonical action kinds contained in a recording.
#[derive(Debug, Clone, Copy, PartialEq, Eq, Default)]
pub struct RecordingActionCounts {
    pub key_pressed_events: usize,
    pub key_released_events: usize,
    pub pointer_moved_events: usize,
    pub mouse_button_pressed_events: usize,
    pub mouse_button_released_events: usize,
    pub mouse_wheel_scrolled_events: usize,
}

pub open spec fn counts_total(counts: RecordingActionCounts) -> int {
    counts.key_pressed_events + counts.key_released_events + counts.pointer_moved_events
        + counts.mouse_button_pressed_events + counts.mouse_button_released_events
        + counts.mouse_wheel_scrolled_events
}

impl RecordingActionCounts {
    /// The number of events over all kinds.
    pub fn total_events(self) -> (total: usize)
        requires
            counts_total(self) <= usize::MAX,
        ensures
            total == counts_total(self),
    {
        self.key_pressed_events + self.key_released_events + self.pointer_moved_events
            + self.mouse_button_pressed_events + self.mouse_button_released_events
            + self.mouse_wheel_scrolled_events
    }
}

/// Lightweight metrics computed from an in-memory recording.
#[derive(Debug, Clone, Copy, PartialEq, Eq, Default)]
pub struct RecordingMetrics {
    pub total_events: usize,
    pub duration_micros: u64,
    pub peak_events_per_second: usize,
    pub action_counts: RecordingActionCounts,
}

/// The number of events of a kind among the events.
pub open spec fn kind_count(events: Seq<InputEvent>, kind: ActionKind) -> nat
    decreases events.len(),
{
    if events.len() == 0 {
        0
    } else {
        kind_count(events.drop_last(), kind) + if action_kind(events.last().action) == kind {
            1nat
        } else {
            0nat
        }
    }
}

/// The whole second of the recording in which an event falls.
pub open spec fn second_bucket(event: InputEvent) -> u64 {
    event.elapsed_time.micros() / 1_000_000
}

/// The number of consecutive events, ending with event `index`, that fall in
/// the same whole second.
pub open spec fn same_second_run(events: Seq<InputEvent>, index: int) -> nat
    decreases index,
{
    if index <= 0 {
        1
    } else if second_bucket(events[index - 1]) == second_bucket(events[index]) {
        same_second_run(events, index - 1) + 1
    } else {
        1
    }
}

/// The longest run of consecutive events in the same whole second among the
/// first `count` events (zero for none).
pub open spec fn peak_same_second_run(events: Seq<InputEvent>, count: int) -> nat
    decreases count,
{
    if count <= 0 {
        0
    } else {
        let previous = peak_same_second_run(events, count - 1);
        let run = same_second_run(events, count - 1);
        if run > previous {
            run
        } else {
            previous
        }
    }
}

/// The elapsed time of the last event, or zero for an empty recording.
pub open spec fn duration_micros(events: Seq<InputEvent>) -> u64 {
    if events.len() == 0 {
        0
    } else {
        events.last().elapsed_time.micros()
    }
}

pub open spec fn metrics_of(events: Seq<InputEvent>, metrics: RecordingMetrics) -> bool {
    &&& metrics.total_events == events.len()
    &&& metrics.duration_micros == duration_micros(events)
    &&& metrics.peak_events_per_second == peak_same_second_run(events, events.len() as int)
    &&& metrics.action_counts.key_pressed_events == kind_count(events, ActionKind::KeyPressed)
    &&& metrics.action_counts.key_released_events == kind_count(events, ActionKind::KeyReleased)
    &&& metrics.action_counts.pointer_moved_events == kind_count(events, ActionKind::PointerMoved)
    &&& metrics.action_counts.mouse_button_pressed_events == kind_count(
        events,
        ActionKind::MouseButtonPressed,
    )
    &&& metrics.action_counts.mouse_button_released_events == kind_count(
        events,
        ActionKind::MouseButtonReleased,
    )
    &&& metrics.action_counts.mouse_wheel_scrolled_events == kind_count(
        events,
        ActionKind::MouseWheelScrolled,
    )
}

/// The six kind counts add up to the number of events.
pub proof fn lemma_kind_counts_sum(events: Seq<InputEvent>)
    ensures
        kind_count(events, ActionKind::KeyPressed) + kind_count(events, ActionKind::KeyReleased)
            + kind_count(events, ActionKind::PointerMoved) + kind_count(
            events,
            ActionKind::MouseButtonPressed,
        ) + kind_count(events, ActionKind::MouseButtonReleased) + kind_count(
            events,
            ActionKind::MouseWheelScrolled,
        ) == events.len(),
    decreases events.len(),
{
    if events.len() > 0 {
        lemma_kind_counts_sum(events.drop_last());
    }
}

/// A run of same-second events is never longer than the events up to it, and the
/// peak is at most the number of events considered, and at least one when any is.
pub proof fn lemma_peak_bounds(events: Seq<InputEvent>, count: int)
    requires
        0 <= count,
    ensures
        peak_same_second_run(events, count) <= count,
        count > 0 ==> peak_same_second_run(events, count) >= 1,
    decreases count,
{
    if count > 0 {
        lemma_peak_bounds(events, count - 1);
        lemma_run_bound(events, count - 1);
    }
}

proof fn lemma_run_bound(events: Seq<InputEvent>, index: int)
    requires
        0 <= index,
    ensures
        1 <= same_second_run(events, index) <= index + 1,
    decreases index,
{
    if index > 0 {
        lemma_run_bound(events, index - 1);
    }
}

/// Elapsed times never decrease along the events.
pub open spec fn elapsed_nondecreasing(events: Seq<InputEvent>) -> bool {
    forall|i: int, j: int|
        0 <= i <= j < events.len() ==> #[trigger] events[i].elapsed_time.micros()
            <= #[trigger] events[j].elapsed_time.micros()
}

/// The number of events among the first `count` that fall in whole second
/// `bucket`.
pub open spec fn events_in_second(events: Seq<InputEvent>, count: int, bucket: u64) -> nat
    decreases count,
{
    if count <= 0 {
        0
    } else {
        events_in_second(events, count - 1, bucket) + if second_bucket(events[count - 1])
            == bucket {
            1nat
        } else {
            0nat
        }
    }
}

/// Events that are in order have non-decreasing elapsed times.
pub proof fn lemma_in_order_nondecreasing(events: Seq<InputEvent>)
    requires
        events_in_order(events),
    ensures
        elapsed_nondecreasing(events),
{
    assert forall|i: int, j: int| 0 <= i <= j < events.len() implies #[trigger] events[i].elapsed_time.micros()
        <= #[trigger] events[j].elapsed_time.micros() by {
        lemma_in_order_step(events, i, j);
    }
}

proof fn lemma_in_order_step(events: Seq<InputEvent>, i: int, j: int)
    requires
        events_in_order(events),
        0 <= i <= j < events.len(),
    ensures
        events[i].elapsed_time.micros() <= events[j].elapsed_time.micros(),
    decreases j - i,
{
    if i < j {
        lemma_in_order_step(events, i, j - 1);
        assert(event_in_order(events, j));
    }
}

proof fn lemma_bucket_ordered(events: Seq<InputEvent>, i: int, j: int)
    requires
        elapsed_nondecreasing(events),
        0 <= i <= j < events.len(),
    ensures
        second_bucket(events[i]) <= second_bucket(events[j]),
{
    let x = events[i].elapsed_time.micros();
    let y = events[j].elapsed_time.micros();
    assert(x <= y);
    vstd::arithmetic::div_mod::lemma_div_is_ordered(x as int, y as int, 1_000_000);
}

proof fn lemma_no_events_in_second(events: Seq<InputEvent>, count: int, bucket: u64)
    requires
        0 <= count <= events.len(),
        forall|i: int| 0 <= i < count ==> second_bucket(#[trigger] events[i]) != bucket,
    ensures
        events_in_second(events, count, bucket) == 0,
    decreases count,
{
    if count > 0 {
        lemma_no_events_in_second(events, count - 1, bucket);
    }
}

proof fn lemma_events_in_second_grows(events: Seq<InputEvent>, shorter: int, count: int, bucket: u64)
    requires
        0 <= shorter <= count,
    ensures
        events_in_second(events, shorter, bucket) <= events_in_second(events, count, bucket),
    decreases count - shorter,
{
    if shorter < count {
        lemma_events_in_second_grows(events, shorter, count - 1, bucket);
    }
}

/// With non-decreasing times, the run ending at an event holds every earlier
/// event of its second.
proof fn lemma_run_is_second_count(events: Seq<InputEvent>, count: int)
    requires
        elapsed_nondecreasing(events),
        0 < count <= events.len(),
    ensures
        events_in_second(events, count, second_bucket(events[count - 1])) == same_second_run(
            events,
            count - 1,
        ),
    decreases count,
{
    let bucket = second_bucket(events[count - 1]);
    assert(events_in_second(events, count, bucket) == events_in_second(events, count - 1, bucket)
        + 1);
    if count == 1 {
        assert(events_in_second(events, 0, bucket) == 0);
    } else {
        let previous = second_bucket(events[count - 2]);
        if previous == bucket {
            lemma_run_is_second_count(events, count - 1);
        } else {
            assert forall|i: int| 0 <= i < count - 1 implies second_bucket(#[trigger] events[i])
                != bucket by {
                lemma_bucket_ordered(events, i, count - 2);
                lemma_bucket_ordered(events, count - 2, count - 1);
            }
            lemma_no_events_in_second(events, count - 1, bucket);
        }
    }
}

proof fn lemma_second_count_below_peak(events: Seq<InputEvent>, count: int, bucket: u64)
    requires
        elapsed_nondecreasing(events),
        0 <= count <= events.len(),
    ensures
        events_in_second(events, count, bucket) <= peak_same_second_run(events, count),
    decreases count,
{
    if count > 0 {
        lemma_second_count_below_peak(events, count - 1, bucket);
        if second_bucket(events[count - 1]) == bucket {
            lemma_run_is_second_count(events, count);
        }
    }
}

proof fn lemma_peak_attained(events: Seq<InputEvent>, count: int) -> (index: int)
    requires
        0 < count,
    ensures
        0 <= index < count,
        peak_same_second_run(events, count) == same_second_run(events, index),
    decreases count,
{
    if same_second_run(events, count - 1) > peak_same_second_run(events, count - 1) {
        count - 1
    } else {
        assert(count > 1) by {
            if count == 1 {
                assert(peak_same_second_run(events, 0) == 0);
                assert(same_second_run(events, 0) == 1);
            }
        }
        lemma_peak_attained(events, count - 1)
    }
}

/// For events whose elapsed times never decrease, the peak run of same-second
/// events is the number of events in the busiest whole second: no second holds
/// more events, some second holds exactly that many when there are events, and
/// the peak is zero when there are none.
pub proof fn lemma_peak_is_busiest_second(events: Seq<InputEvent>)
    requires
        elapsed_nondecreasing(events),
    ensures
        forall|bucket: u64|
            #[trigger] events_in_second(events, events.len() as int, bucket)
                <= peak_same_second_run(events, events.len() as int),
        events.len() > 0 ==> exists|bucket: u64|
            #[trigger] events_in_second(events, events.len() as int, bucket)
                == peak_same_second_run(events, events.len() as int),
        events.len() == 0 ==> peak_same_second_run(events, events.len() as int) == 0,
{
    let count = events.len() as int;
    assert forall|bucket: u64| #[trigger] events_in_second(events, count, bucket)
        <= peak_same_second_run(events, count) by {
        lemma_second_count_below_peak(events, count, bucket);
    }
    if count > 0 {
        let index = lemma_peak_attained(events, count);
        let bucket = second_bucket(events[index]);
        lemma_run_is_second_count(events, index + 1);
        lemma_events_in_second_grows(events, index + 1, count, bucket);
        assert(events_in_second(events, count, bucket) == peak_same_second_run(events, count));
    }
}

/// A canonical recording with stable ordering and validated metadata.
#[derive(Debug, PartialEq, Eq)]
pub struct Recording {
    metadata: RecordingMetadata,
    events: Vec<InputEvent>,
}

impl View for Recording {
    type V = (RecordingMetadataView, Seq<InputEvent>);

    closed spec fn view(&self) -> (RecordingMetadataView, Seq<InputEvent>) {
        (self.metadata@, self.events@)
    }
}

/// A recording's metadata and events break none of the recording rules.
pub open spec fn is_valid_recording(metadata: RecordingMetadataView, events: Seq<InputEvent>) -> bool {
    recording_error(metadata, events) is None
}

impl Recording {
    #[verifier::type_invariant]
    closed spec fn valid(self) -> bool {
        is_valid_recording(self.metadata@, self.events@)
    }

    /// Creates a validated recording, or reports the first rule the data breaks.
    pub fn new(metadata: RecordingMetadata, events: Vec<InputEvent>) -> (result: Result<
        Self,
        ValidationError,
    >)
        ensures
            match recording_error(metadata@, events@) {
                Some(error) => result == Err::<Recording, ValidationError>(error),
                None => result matches Ok(recording) && recording@ == (metadata@, events@),
            },
    {
        validate_parts(&metadata, events.as_slice())?;
        Ok(Recording { metadata, events })
    }

    /// Returns the recording metadata.
    pub fn metadata(&self) -> (metadata: &RecordingMetadata)
        ensures
            metadata@ == self@.0,
            is_valid_recording(self@.0, self@.1),
    {
        proof {
            use_type_invariant(self);
        }
        &self.metadata
    }

    /// Returns the ordered event stream.
    pub fn events(&self) -> (events: &[InputEvent])
        ensures
            events@ == self@.1,
            is_valid_recording(self@.0, self@.1),
    {
        proof {
            use_type_invariant(self);
        }
        self.events.as_slice()
    }

    /// Returns the number of events in the recording.
    pub fn event_count(&self) -> (count: usize)
        ensures
            count == self@.1.len(),
    {
        self.events.len()
    }

    /// Returns the elapsed time of the last event, or zero for an empty recording.
    pub fn duration(&self) -> (duration: ElapsedTime)
        ensures
            duration.micros() == duration_micros(self@.1),
    {
        if self.events.len() == 0 {
            EventOffset::from_micros(0)
        } else {
            self.events[self.events.len() - 1].elapsed_time
        }
    }

    /// Checks the recording against the recording rules, reporting the first rule
    /// broken; a constructed recording always passes.
    pub fn validate(&self) -> (result: Result<(), ValidationError>)
        ensures
            match recording_error(self@.0, self@.1) {
                Some(error) => result == Err::<(), ValidationError>(error),
                None => result is Ok,
            },
            result is Ok,
    {
        proof {
            use_type_invariant(self);
        }
        validate_parts(&self.metadata, self.events.as_slice())
    }

    /// Splits the recording into its metadata and events.
    pub fn into_parts(self) -> (parts: (RecordingMetadata, Vec<InputEvent>))
        ensures
            parts.0@ == self@.0,
            parts.1@ == self@.1,
            is_valid_recording(parts.0@, parts.1@),
    {
        proof {
            use_type_invariant(&self);
        }
        (self.metadata, self.events)
    }

    /// Returns a copy of this recording.
    pub fn duplicate(&self) -> (copy: Recording)
        ensures
            copy@ == self@,
    {
        proof {
            use_type_invariant(self);
        }
        let mut events: Vec<InputEvent> = Vec::new();
        let mut index: usize = 0;
        while index < self.events.len()
            invariant
                index <= self.events.len(),
                events@ == self.events@.subrange(0, index as int),
            decreases self.events.len() - index,
        {
            events.push(self.events[index].duplicate());
            index += 1;
            assert(events@ =~= self.events@.subrange(0, index as int));
        }
        assert(events@ =~= self.events@);
        let metadata = RecordingMetadata {
            schema_version: self.metadata.schema_version,
            title: crate::event::optional_text_copy(&self.metadata.title),
            display: duplicate_display(&self.metadata.display),
        };
        Recording { metadata, events }
    }

    /// Summarizes event density and the mix of action kinds. The peak is the
    /// number of events in the busiest whole second of the recording.
    pub fn metrics(&self) -> (metrics: RecordingMetrics)
        ensures
            metrics_of(self@.1, metrics),
            forall|bucket: u64|
                #[trigger] events_in_second(self@.1, self@.1.len() as int, bucket)
                    <= metrics.peak_events_per_second,
            self@.1.len() > 0 ==> exists|bucket: u64|
                #[trigger] events_in_second(self@.1, self@.1.len() as int, bucket)
                    == metrics.peak_events_per_second,
    {
        proof {
            use_type_invariant(self);
            lemma_events_error_none(self.events@);
            lemma_in_order_nondecreasing(self.events@);
            lemma_peak_is_busiest_second(self.events@);
        }
        let mut counts = RecordingActionCounts {
            key_pressed_events: 0,
            key_released_events: 0,
            pointer_moved_events: 0,
            mouse_button_pressed_events: 0,
            mouse_button_released_events: 0,
            mouse_wheel_scrolled_events: 0,
        };
        let mut current_second_bucket: Option<u64> = None;
        let mut current_second_count: usize = 0;
        let mut peak_events_per_second: usize = 0;
        let ghost events = self.events@;
        let mut index: usize = 0;
        while index < self.events.len()
            invariant
                index <= self.events.len(),
                events == self.events@,
                counts.key_pressed_events == kind_count(
                    events.subrange(0, index as int),
                    ActionKind::KeyPressed,
                ),
                counts.key_released_events == kind_count(
                    events.subrange(0, index as int),
                    ActionKind::KeyReleased,
                ),
                counts.pointer_moved_events == kind_count(
                    events.subrange(0, index as int),
                    ActionKind::PointerMoved,
                ),
                counts.mouse_button_pressed_events == kind_count(
                    events.subrange(0, index as int),
                    ActionKind::MouseButtonPressed,
                ),
                counts.mouse_button_released_events == kind_count(
                    events.subrange(0, index as int),
                    ActionKind::MouseButtonReleased,
                ),
                counts.mouse_wheel_scrolled_events == kind_count(
                    events.subrange(0, index as int),
                    ActionKind::MouseWheelScrolled,
                ),
                index == 0 ==> current_second_bucket is None && current_second_count == 0
                    && peak_events_per_second == 0,
                index > 0 ==> current_second_bucket == Some(second_bucket(events[index - 1]))
                    && current_second_count == same_second_run(events, index - 1),
                peak_events_per_second <= peak_same_second_run(events, index as int),
                (if current_second_count > peak_events_per_second {
                    current_second_count as nat
                } else {
                    peak_events_per_second as nat
                }) == peak_same_second_run(events, index as int),
                current_second_count <= index,
            decreases self.events.len() - index,
        {
            let event = &self.events[index];
            proof {
                let next = events.subrange(0, index + 1);
                assert(next.drop_last() =~= events.subrange(0, index as int));
                assert(next.last() == events[index as int]);
                lemma_kind_count_bound(events.subrange(0, index as int));
                lemma_run_bound(events, index as int);
            }
            match event.action.kind() {
                ActionKind::KeyPressed => counts.key_pressed_events += 1,
                ActionKind::KeyReleased => counts.key_released_events += 1,
                ActionKind::PointerMoved => counts.pointer_moved_events += 1,
                ActionKind::MouseButtonPressed => counts.mouse_button_pressed_events += 1,
                ActionKind::MouseButtonReleased => counts.mouse_button_released_events += 1,
                ActionKind::MouseWheelScrolled => counts.mouse_wheel_scrolled_events += 1,
            }
            let second_bucket_value = event.elapsed_time.as_micros() / 1_000_000;
            if current_second_bucket == Some(second_bucket_value) {
                current_second_count += 1;
            } else {
                if current_second_count > peak_events_per_second {
                    peak_events_per_second = current_second_count;
                }
                current_second_bucket = Some(second_bucket_value);
                current_second_count = 1;
            }
            index += 1;
        }
        if current_second_count > peak_events_per_second {
            peak_events_per_second = current_second_count;
        }
        assert(events.subrange(0, self.events.len() as int) =~= events);
        RecordingMetrics {
            total_events: self.events.len(),
            duration_micros: self.duration().as_micros(),
            peak_events_per_second,
            action_counts: counts,
        }
    }
}

proof fn lemma_kind_count_bound(events: Seq<InputEvent>)
    ensures
        forall|kind: ActionKind| kind_count(events, kind) <= events.len(),
    decreases events.len(),
{
    if events.len() > 0 {
        lemma_kind_count_bound(events.drop_last());
        assert forall|kind: ActionKind| kind_count(events, kind) <= events.len() by {
            assert(kind_count(events.drop_last(), kind) <= events.drop_last().len());
        }
    }
}

/// Returns a copy of display metadata.
pub fn duplicate_display(display: &DisplayMetadata) -> (copy: DisplayMetadata)
    ensures
        copy@ == display@,
{
    let mut monitors: Vec<crate::event::MonitorDescriptor> = Vec::new();
    let mut index: usize = 0;
    while index < display.monitors.len()
        invariant
            index <= display.monitors.len(),
            monitors@ == display.monitors@.subrange(0, index as int),
        decreases display.monitors.len() - index,
    {
        let monitor = &display.monitors[index];
        monitors.push(
            crate::event::MonitorDescriptor {
                name: crate::event::optional_text_copy(&monitor.name),
                origin: monitor.origin,
                size: monitor.size,
                dpi: monitor.dpi,
            },
        );
        index += 1;
        assert(monitors@ =~= display.monitors@.subrange(0, index as int));
    }
    assert(monitors@ =~= display.monitors@);
    DisplayMetadata {
        virtual_origin: display.virtual_origin,
        virtual_size: display.virtual_size,
        monitors,
    }
}

} // verus!
