use vstd::prelude::*;

verus! {

/// Semantic validation errors for the recording model.
///
/// Floating-point values that failed validation are carried by their
/// IEEE-754 bit pattern.
#[derive(Debug, Clone, PartialEq, Eq)]
pub enum ValidationError {
    UnsupportedSchemaVersion { expected: u32, found: u32 },
    EmptyTitle,
    ZeroSizedSurface { context: &'static str, width: u32, height: u32 },
    NonConsecutiveSequence { expected: u64, found: u64 },
    NonMonotonicElapsedTime { previous_micros: u64, found_micros: u64 },
    InvalidSpeedMultiplier { value_bits: u64 },
    InvalidNormalizedCoordinate { axis: &'static str, value_bits: u64 },
}

} // verus!
