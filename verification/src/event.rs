use vstd::prelude::*;

use crate::error::ValidationError;

verus! {

/// The schema version understood by this build.
pub const CURRENT_SCHEMA_VERSION_NUMBER: u32 = 1;

/// A version marker for the canonical recording schema.
#[derive(Debug, Clone, Copy, PartialEq, Eq, PartialOrd, Ord, Hash)]
pub struct SchemaVersion(u32);

impl SchemaVersion {
    pub closed spec fn number(self) -> u32 {
        self.0
    }

    /// Versions with the same number are the same version.
    pub proof fn lemma_equal(a: Self, b: Self)
        requires
            a.number() == b.number(),
        ensures
            a == b,
    {
    }

    /// Creates a new schema version value.
    pub fn new(value: u32) -> (version: Self)
        ensures
            version.number() == value,
    {
        SchemaVersion(value)
    }

    /// Returns the raw schema version number.
    pub fn get(self) -> (value: u32)
        ensures
            value == self.number(),
    {
        self.0
    }
}

/// The schema version produced by this build.
pub fn current_schema_version() -> (version: SchemaVersion)
    ensures
        version.number() == CURRENT_SCHEMA_VERSION_NUMBER,
{
    SchemaVersion::new(CURRENT_SCHEMA_VERSION_NUMBER)
}

impl Default for SchemaVersion {
    fn default() -> (version: Self)
        ensures
            version.number() == CURRENT_SCHEMA_VERSION_NUMBER,
    {
        current_schema_version()
    }
}

/// A physical keyboard scan code suitable for deterministic replay.
#[derive(Debug, Clone, Copy, PartialEq, Eq, PartialOrd, Ord, Hash)]
pub struct ScanCode(u16);

impl ScanCode {
    pub closed spec fn code(self) -> u16 {
        self.0
    }

    /// The scan code with the given value.
    pub closed spec fn spec_new(value: u16) -> ScanCode {
        ScanCode(value)
    }

    /// The scan code made from a value holds that value.
    pub proof fn lemma_spec_new_code(value: u16)
        ensures
            ScanCode::spec_new(value).code() == value,
    {
    }

    /// Creates a new physical scan code.
    pub fn new(value: u16) -> (scan_code: Self)
        ensures
            scan_code.code() == value,
            scan_code == ScanCode::spec_new(value),
    {
        ScanCode(value)
    }

    /// Returns the raw scan code value.
    pub fn get(self) -> (value: u16)
        ensures
            value == self.code(),
    {
        self.0
    }
}

/// A relative time offset stored in microseconds from recording start.
#[derive(Debug, Clone, Copy, PartialEq, Eq, PartialOrd, Ord, Hash)]
pub struct EventOffset(u64);

/// The elapsed time of an event relative to the start of its recording.
pub type ElapsedTime = EventOffset;

/// The standard-library duration of a number of microseconds.
pub uninterp spec fn duration_of_micros(micros: u64) -> std::time::Duration;

/// Builds a duration with `Duration::from_micros`; the result is the duration
/// of exactly `micros` microseconds, which is a function of the argument alone.
#[verifier::external_body]
fn duration_from_micros(micros: u64) -> (duration: std::time::Duration)
    ensures
        duration == duration_of_micros(micros),
{
    std::time::Duration::from_micros(micros)
}

impl EventOffset {
    pub closed spec fn micros(self) -> u64 {
        self.0
    }

    /// Offsets of the same number of microseconds are the same offset.
    pub proof fn lemma_equal(a: Self, b: Self)
        requires
            a.micros() == b.micros(),
        ensures
            a == b,
    {
    }

    /// The offset of the given number of microseconds.
    pub closed spec fn spec_from_micros(micros: u64) -> EventOffset {
        EventOffset(micros)
    }

    /// Creates a relative time offset in microseconds.
    pub fn from_micros(micros: u64) -> (offset: Self)
        ensures
            offset.micros() == micros,
            offset == EventOffset::spec_from_micros(micros),
    {
        EventOffset(micros)
    }

    /// Returns the raw offset value in microseconds.
    pub fn as_micros(self) -> (micros: u64)
        ensures
            micros == self.micros(),
    {
        self.0
    }

    /// Converts the offset to a standard library duration.
    pub fn as_duration(self) -> (duration: std::time::Duration)
        ensures
            duration == duration_of_micros(self.micros()),
    {
        duration_from_micros(self.0)
    }
}

/// Bit pattern of the IEEE-754 double `1.0`.
pub const ONE_F64_BITS: u64 = 0x3FF0_0000_0000_0000;

/// Bit pattern of the IEEE-754 double `-0.0`.
pub const NEGATIVE_ZERO_F64_BITS: u64 = 0x8000_0000_0000_0000;

/// Bit pattern of the IEEE-754 double positive infinity.
pub const POSITIVE_INFINITY_F64_BITS: u64 = 0x7FF0_0000_0000_0000;

/// A double given by its bit pattern is finite and strictly greater than zero:
/// the sign bit is clear, the value is not `+0.0`, and the exponent is not all ones.
pub open spec fn is_finite_positive_f64_bits(bits: u64) -> bool {
    0 < bits < POSITIVE_INFINITY_F64_BITS
}

/// A double given by its bit pattern is finite and lies in `0.0..=1.0`:
/// it is `-0.0`, or a non-negative double no greater than `1.0`.
pub open spec fn is_unit_interval_f64_bits(bits: u64) -> bool {
    bits <= ONE_F64_BITS || bits == NEGATIVE_ZERO_F64_BITS
}

/// A validated playback speed multiplier, held as the bit pattern of its double.
#[derive(Debug, Clone, Copy, PartialEq, Eq)]
pub struct SpeedMultiplier(u64);

impl SpeedMultiplier {
    pub closed spec fn value_bits(self) -> u64 {
        self.0
    }

    #[verifier::type_invariant]
    closed spec fn is_valid(self) -> bool {
        is_finite_positive_f64_bits(self.0)
    }

    /// Validates a multiplier given by the bit pattern of its double: it must be
    /// finite and greater than zero.
    pub fn from_bits(bits: u64) -> (result: Result<Self, ValidationError>)
        ensures
            match result {
                Ok(speed) => is_finite_positive_f64_bits(bits) && speed.value_bits() == bits,
                Err(error) => !is_finite_positive_f64_bits(bits)
                    && error == (ValidationError::InvalidSpeedMultiplier { value_bits: bits }),
            },
    {
        if 0 < bits && bits < POSITIVE_INFINITY_F64_BITS {
            Ok(SpeedMultiplier(bits))
        } else {
            Err(ValidationError::InvalidSpeedMultiplier { value_bits: bits })
        }
    }

    /// Returns the bit pattern of the multiplier's double.
    pub fn to_bits(self) -> (bits: u64)
        ensures
            bits == self.value_bits(),
            is_finite_positive_f64_bits(bits),
    {
        proof {
            use_type_invariant(&self);
        }
        self.0
    }
}

/// A validated normalized screen coordinate in the unit interval, held as the
/// bit pattern of its double.
#[derive(Debug, Clone, Copy, PartialEq, Eq)]
pub struct NormalizedCoordinate(u64);

impl NormalizedCoordinate {
    pub closed spec fn value_bits(self) -> u64 {
        self.0
    }

    #[verifier::type_invariant]
    closed spec fn is_valid(self) -> bool {
        is_unit_interval_f64_bits(self.0)
    }

    /// Validates a coordinate given by the bit pattern of its double: it must be
    /// finite and between `0.0` and `1.0` inclusive.
    pub fn from_bits(bits: u64, axis: &'static str) -> (result: Result<Self, ValidationError>)
        ensures
            match result {
                Ok(coordinate) => is_unit_interval_f64_bits(bits) && coordinate.value_bits()
                    == bits,
                Err(error) => !is_unit_interval_f64_bits(bits) && error == (
                ValidationError::InvalidNormalizedCoordinate { axis, value_bits: bits }),
            },
    {
        if bits <= ONE_F64_BITS || bits == NEGATIVE_ZERO_F64_BITS {
            Ok(NormalizedCoordinate(bits))
        } else {
            Err(ValidationError::InvalidNormalizedCoordinate { axis, value_bits: bits })
        }
    }

    /// Coordinates with the same bit pattern are the same coordinate.
    pub proof fn lemma_equal(a: Self, b: Self)
        requires
            a.value_bits() == b.value_bits(),
        ensures
            a == b,
    {
    }

    /// Returns the bit pattern of the coordinate's double.
    pub fn to_bits(self) -> (bits: u64)
        ensures
            bits == self.value_bits(),
            is_unit_interval_f64_bits(bits),
    {
        proof {
            use_type_invariant(&self);
        }
        self.0
    }
}

/// A point on the virtual desktop in absolute screen coordinates.
#[derive(Debug, Clone, Copy, PartialEq, Eq)]
pub struct AbsoluteScreenPoint {
    pub x: i32,
    pub y: i32,
}

/// A point normalized against the recorded virtual desktop bounds.
#[derive(Debug, Clone, Copy, PartialEq, Eq)]
pub struct NormalizedScreenPoint {
    pub x: NormalizedCoordinate,
    pub y: NormalizedCoordinate,
}

/// Exact and portable cursor coordinates captured for a pointer event.
#[derive(Debug, Clone, Copy, PartialEq, Eq)]
pub struct PointerPosition {
    pub absolute: AbsoluteScreenPoint,
    pub normalized: NormalizedScreenPoint,
}

/// A width and height pair for the recorded virtual desktop or monitor.
#[derive(Debug, Clone, Copy, PartialEq, Eq)]
pub struct ScreenSize {
    pub width: u32,
    pub height: u32,
}

/// The error a surface of the given size reports, if any.
pub open spec fn surface_error(size: ScreenSize, context: &'static str) -> Option<ValidationError> {
    if size.width == 0 || size.height == 0 {
        Some(
            ValidationError::ZeroSizedSurface {
                context,
                width: size.width,
                height: size.height,
            },
        )
    } else {
        None
    }
}

impl ScreenSize {
    /// Rejects a surface with a zero width or height.
    pub fn validate(self, context: &'static str) -> (result: Result<(), ValidationError>)
        ensures
            match surface_error(self, context) {
                Some(error) => result == Err::<(), ValidationError>(error),
                None => result is Ok,
            },
    {
        if self.width == 0 || self.height == 0 {
            Err(
                ValidationError::ZeroSizedSurface {
                    context,
                    width: self.width,
                    height: self.height,
                },
            )
        } else {
            Ok(())
        }
    }
}

/// Horizontal and vertical DPI values captured for a monitor.
#[derive(Debug, Clone, Copy, PartialEq, Eq)]
pub struct Dpi {
    pub x: u32,
    pub y: u32,
}

/// Monitor metadata captured with a recording.
#[derive(Debug, Clone, PartialEq, Eq)]
pub struct MonitorDescriptor {
    pub name: Option<String>,
    pub origin: AbsoluteScreenPoint,
    pub size: ScreenSize,
    pub dpi: Dpi,
}

impl MonitorDescriptor {
    /// Rejects a monitor with a zero-sized surface.
    pub fn validate(&self) -> (result: Result<(), ValidationError>)
        ensures
            match surface_error(self.size, "monitor") {
                Some(error) => result == Err::<(), ValidationError>(error),
                None => result is Ok,
            },
    {
        self.size.validate("monitor")
    }
}

/// The virtual desktop layout that a recording was captured against.
#[derive(Debug, Clone, PartialEq, Eq)]
pub struct DisplayMetadata {
    pub virtual_origin: AbsoluteScreenPoint,
    pub virtual_size: ScreenSize,
    pub monitors: Vec<MonitorDescriptor>,
}

/// The content of display metadata, with the monitors as a sequence.
pub struct DisplayMetadataView {
    pub virtual_origin: AbsoluteScreenPoint,
    pub virtual_size: ScreenSize,
    pub monitors: Seq<MonitorDescriptor>,
}

impl View for DisplayMetadata {
    type V = DisplayMetadataView;

    open spec fn view(&self) -> DisplayMetadataView {
        DisplayMetadataView {
            virtual_origin: self.virtual_origin,
            virtual_size: self.virtual_size,
            monitors: self.monitors@,
        }
    }
}

/// `index` is the first zero-sized monitor among `monitors`.
pub open spec fn first_zero_sized_monitor(monitors: Seq<MonitorDescriptor>, index: int) -> bool {
    0 <= index < monitors.len() && surface_error(monitors[index].size, "monitor") is Some
        && forall|j: int|
        0 <= j < index ==> surface_error(#[trigger] monitors[j].size, "monitor") is None
}

/// The error the display metadata reports: the virtual display first, then the
/// first zero-sized monitor in order.
pub open spec fn display_error(display: DisplayMetadataView) -> Option<ValidationError> {
    match surface_error(display.virtual_size, "virtual display") {
        Some(error) => Some(error),
        None => if exists|i: int| first_zero_sized_monitor(display.monitors, i) {
            surface_error(
                display.monitors[choose|i: int| first_zero_sized_monitor(display.monitors, i)].size,
                "monitor",
            )
        } else {
            None
        },
    }
}

impl DisplayMetadata {
    /// Rejects a zero-sized virtual display or monitor.
    pub fn validate(&self) -> (result: Result<(), ValidationError>)
        ensures
            match display_error(self@) {
                Some(error) => result == Err::<(), ValidationError>(error),
                None => result is Ok,
            },
    {
        self.virtual_size.validate("virtual display")?;
        let mut index: usize = 0;
        while index < self.monitors.len()
            invariant
                index <= self.monitors.len(),
                surface_error(self.virtual_size, "virtual display") is None,
                forall|j: int|
                    0 <= j < index ==> surface_error(
                        #[trigger] self.monitors@[j].size,
                        "monitor",
                    ) is None,
            decreases self.monitors.len() - index,
        {
            let result = self.monitors[index].validate();
            if result.is_err() {
                assert(first_zero_sized_monitor(self.monitors@, index as int));
                proof {
                    let chosen = choose|i: int| first_zero_sized_monitor(self.monitors@, i);
                    assert(chosen == index as int) by {
                        if chosen < index as int {
                        } else if chosen > index as int {
                            assert(surface_error(self.monitors@[index as int].size, "monitor")
                                is None);
                        }
                    }
                }
                return result;
            }
            index += 1;
        }
        assert(!exists|i: int| first_zero_sized_monitor(self.monitors@, i));
        Ok(())
    }
}


/// The content of a key descriptor: scan code, logical name and extended flag.
pub type KeyView = (u16, Option<Seq<char>>, bool);

/// A key description that remains stable enough for deterministic playback.
#[derive(Debug, Clone, PartialEq, Eq)]
pub struct KeyDescriptor {
    pub scan_code: ScanCode,
    pub logical_name: Option<String>,
    pub extended: bool,
}

pub open spec fn optional_text_view(text: Option<String>) -> Option<Seq<char>> {
    match text {
        Some(value) => Some(value@),
        None => None,
    }
}

impl View for KeyDescriptor {
    type V = KeyView;

    open spec fn view(&self) -> KeyView {
        (self.scan_code.code(), optional_text_view(self.logical_name), self.extended)
    }
}

/// Compares two optional strings by their contents.
pub fn optional_text_equals(left: &Option<String>, right: &Option<String>) -> (equal: bool)
    ensures
        equal == (optional_text_view(*left) == optional_text_view(*right)),
{
    match (left, right) {
        (Some(left_text), Some(right_text)) => left_text.eq(right_text),
        (None, None) => true,
        _ => false,
    }
}

/// Copies an optional string.
pub fn optional_text_copy(text: &Option<String>) -> (copy: Option<String>)
    ensures
        copy == *text,
{
    match text {
        Some(value) => Some(value.clone()),
        None => None,
    }
}

impl KeyDescriptor {
    /// Reports whether two descriptors name the same key: equal scan codes,
    /// logical names and extended flags.
    pub fn same_key(&self, other: &KeyDescriptor) -> (same: bool)
        ensures
            same == (self@ == other@),
    {
        self.scan_code.get() == other.scan_code.get() && self.extended == other.extended
            && optional_text_equals(&self.logical_name, &other.logical_name)
    }

    /// Returns a copy of this descriptor.
    pub fn duplicate(&self) -> (copy: KeyDescriptor)
        ensures
            copy == *self,
    {
        KeyDescriptor {
            scan_code: self.scan_code,
            logical_name: optional_text_copy(&self.logical_name),
            extended: self.extended,
        }
    }
}

/// Mouse buttons supported by the canonical recording model.
#[derive(Debug, Clone, Copy, PartialEq, Eq, Structural)]
pub enum MouseButton {
    Left,
    Right,
    Middle,
    X1,
    X2,
}

/// Scroll axes used by wheel events.
#[derive(Debug, Clone, Copy, PartialEq, Eq, Structural)]
pub enum ScrollAxis {
    Vertical,
    Horizontal,
}

/// A single logical user input action.
#[derive(Debug, Clone, PartialEq, Eq)]
pub enum InputAction {
    KeyPressed { key: KeyDescriptor },
    KeyReleased { key: KeyDescriptor },
    PointerMoved { position: PointerPosition },
    MouseButtonPressed { button: MouseButton },
    MouseButtonReleased { button: MouseButton },
    MouseWheelScrolled { axis: ScrollAxis, delta: i32 },
}

/// The six kinds of input action.
#[derive(Debug, Clone, Copy, PartialEq, Eq, Structural)]
pub enum ActionKind {
    KeyPressed,
    KeyReleased,
    PointerMoved,
    MouseButtonPressed,
    MouseButtonReleased,
    MouseWheelScrolled,
}

pub open spec fn action_kind(action: InputAction) -> ActionKind {
    match action {
        InputAction::KeyPressed { .. } => ActionKind::KeyPressed,
        InputAction::KeyReleased { .. } => ActionKind::KeyReleased,
        InputAction::PointerMoved { .. } => ActionKind::PointerMoved,
        InputAction::MouseButtonPressed { .. } => ActionKind::MouseButtonPressed,
        InputAction::MouseButtonReleased { .. } => ActionKind::MouseButtonReleased,
        InputAction::MouseWheelScrolled { .. } => ActionKind::MouseWheelScrolled,
    }
}

impl InputAction {
    /// Returns the kind of this action.
    pub fn kind(&self) -> (kind: ActionKind)
        ensures
            kind == action_kind(*self),
    {
        match self {
            InputAction::KeyPressed { .. } => ActionKind::KeyPressed,
            InputAction::KeyReleased { .. } => ActionKind::KeyReleased,
            InputAction::PointerMoved { .. } => ActionKind::PointerMoved,
            InputAction::MouseButtonPressed { .. } => ActionKind::MouseButtonPressed,
            InputAction::MouseButtonReleased { .. } => ActionKind::MouseButtonReleased,
            InputAction::MouseWheelScrolled { .. } => ActionKind::MouseWheelScrolled,
        }
    }

    /// Returns a copy of this action.
    pub fn duplicate(&self) -> (copy: InputAction)
        ensures
            copy == *self,
    {
        match self {
            InputAction::KeyPressed { key } => InputAction::KeyPressed { key: key.duplicate() },
            InputAction::KeyReleased { key } => InputAction::KeyReleased { key: key.duplicate() },
            InputAction::PointerMoved { position } => InputAction::PointerMoved {
                position: *position,
            },
            InputAction::MouseButtonPressed { button } => InputAction::MouseButtonPressed {
                button: *button,
            },
            InputAction::MouseButtonReleased { button } => InputAction::MouseButtonReleased {
                button: *button,
            },
            InputAction::MouseWheelScrolled { axis, delta } => InputAction::MouseWheelScrolled {
                axis: *axis,
                delta: *delta,
            },
        }
    }
}

/// A canonical input event with stable ordering and relative timing.
#[derive(Debug, Clone, PartialEq, Eq)]
pub struct InputEvent {
    pub sequence: u64,
    pub elapsed_time: ElapsedTime,
    pub action: InputAction,
}

impl InputEvent {
    /// Returns a copy of this event.
    pub fn duplicate(&self) -> (copy: InputEvent)
        ensures
            copy == *self,
    {
        InputEvent {
            sequence: self.sequence,
            elapsed_time: self.elapsed_time,
            action: self.action.duplicate(),
        }
    }
}

} // verus!
