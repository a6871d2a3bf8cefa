use vstd::prelude::*;

use crate::error::ValidationError;

verus! {

/// The operating-system error that a failed Win32 call leaves behind.
#[verifier::external_type_specification]
#[verifier::external_body]
pub struct ExIoError(std::io::Error);

/// Errors surfaced by the Windows-specific recording, playback, hotkey and
/// elevation backends.
#[derive(Debug)]
pub enum WindowsBackendError {
    Validation(ValidationError),
    NoHotkeyRegistrations,
    DuplicateHotkeyIdentifier { identifier: i32 },
    NoControlActionHotkeys,
    DuplicateControlActionHotkey { binding: String },
    ElevationRequired { operation: &'static str },
    Interrupted,
    Internal(&'static str),
    ThreadPanic,
    HotkeyRegistrationFailed { identifier: i32, description: String, source: std::io::Error },
    PartialSend { requested: u32, submitted: u32 },
    Os { context: &'static str, source: std::io::Error },
}

impl From<ValidationError> for WindowsBackendError {
    fn from(error: ValidationError) -> (converted: Self)
        ensures
            converted == WindowsBackendError::Validation(error),
    {
        WindowsBackendError::Validation(error)
    }
}

impl vstd::std_specs::convert::FromSpecImpl<ValidationError> for WindowsBackendError {
    open spec fn obeys_from_spec() -> bool {
        true
    }

    open spec fn from_spec(error: ValidationError) -> Self {
        WindowsBackendError::Validation(error)
    }
}

} // verus!
