use vstd::prelude::*;

use crate::backend::WindowsBackendError;
use crate::global_hotkeys::{key_code, modifier_flags, HotkeyActivation, HotkeyRegistration, HotkeyWaitOutcome};
use crate::hotkey::{binding_text, HotkeyBinding, HotkeyKey, HotkeyModifier};

verus! {

/// The hotkey identifier of the start-recording action.
pub const CONTROL_RECORD_IDENTIFIER: i32 = 1;

/// The hotkey identifier of the start-playback action.
pub const CONTROL_PLAY_IDENTIFIER: i32 = 2;

/// The hotkey identifier of the stop hotkey while an action runs.
pub const CONTROL_STOP_IDENTIFIER: i32 = 3;

/// A hotkey-triggered control action that can be run while the controller is idle.
#[derive(Debug, Clone, Copy, PartialEq, Eq, Structural)]
pub enum ControlAction {
    Record,
    Play,
}

/// The content of an optional binding.
pub open spec fn optional_binding_view(binding: Option<HotkeyBinding>) -> Option<
    (Seq<HotkeyModifier>, HotkeyKey),
> {
    match binding {
        Some(binding) => Some(binding@),
        None => None,
    }
}

/// The set of idle hotkeys that can trigger control actions.
#[derive(Debug)]
pub struct ControlBindings {
    start_recording: Option<HotkeyBinding>,
    start_playback: Option<HotkeyBinding>,
}

/// A registration that `RegisterHotKey` gets for `binding` under `identifier`.
pub open spec fn registers_binding(
    registration: HotkeyRegistration,
    identifier: i32,
    binding: (Seq<HotkeyModifier>, HotkeyKey),
) -> bool {
    &&& registration.spec_identifier() == identifier
    &&& registration.spec_modifiers().mask() == modifier_flags(binding.0)
    &&& registration.spec_virtual_key_code() == key_code(binding.1)
    &&& registration.spec_suppresses_auto_repeat()
}

impl ControlBindings {
    /// The start-recording binding, if any.
    pub closed spec fn recording_binding(&self) -> Option<(Seq<HotkeyModifier>, HotkeyKey)> {
        optional_binding_view(self.start_recording)
    }

    /// The start-playback binding, if any.
    pub closed spec fn playback_binding(&self) -> Option<(Seq<HotkeyModifier>, HotkeyKey)> {
        optional_binding_view(self.start_playback)
    }

    /// Creates control bindings for the idle controller loop: at least one action
    /// needs a hotkey, and the two actions cannot share one.
    pub fn new(start_recording: Option<HotkeyBinding>, start_playback: Option<HotkeyBinding>) -> (result: Result<
        Self,
        WindowsBackendError,
    >)
        ensures
            start_recording is None && start_playback is None ==> (result matches Err(
                WindowsBackendError::NoControlActionHotkeys,
            )),
            start_recording is Some && start_playback is Some && start_recording->0@
                == start_playback->0@ ==> (result matches Err(
                WindowsBackendError::DuplicateControlActionHotkey { binding },
            ) && binding@ == binding_text(start_recording->0@.0, start_recording->0@.1)),
            !(start_recording is None && start_playback is None) && !(start_recording is Some
                && start_playback is Some && start_recording->0@ == start_playback->0@)
                ==> (result matches Ok(bindings) && bindings.recording_binding()
                == optional_binding_view(start_recording) && bindings.playback_binding()
                == optional_binding_view(start_playback)),
    {
        if start_recording.is_none() && start_playback.is_none() {
            return Err(WindowsBackendError::NoControlActionHotkeys);
        }
        if let Some(recording) = &start_recording {
            if let Some(playback) = &start_playback {
                if recording.same_as(playback) {
                    return Err(
                        WindowsBackendError::DuplicateControlActionHotkey {
                            binding: recording.to_string(),
                        },
                    );
                }
            }
        }
        Ok(ControlBindings { start_recording, start_playback })
    }

    /// The registrations the idle loop listens for: start recording, then start
    /// playback, each only when bound.
    pub fn registrations(&self) -> (registrations: Vec<HotkeyRegistration>)
        ensures
            registrations@.len() == (if self.recording_binding() is Some {
                1int
            } else {
                0int
            }) + (if self.playback_binding() is Some {
                1int
            } else {
                0int
            }),
            self.recording_binding() is Some ==> registers_binding(
                registrations@[0],
                CONTROL_RECORD_IDENTIFIER,
                self.recording_binding()->0,
            ),
            self.playback_binding() is Some ==> registers_binding(
                registrations@.last(),
                CONTROL_PLAY_IDENTIFIER,
                self.playback_binding()->0,
            ),
    {
        let mut registrations: Vec<HotkeyRegistration> = Vec::new();
        if let Some(recording) = &self.start_recording {
            registrations.push(HotkeyRegistration::from_binding(CONTROL_RECORD_IDENTIFIER, recording));
        }
        if let Some(playback) = &self.start_playback {
            registrations.push(HotkeyRegistration::from_binding(CONTROL_PLAY_IDENTIFIER, playback));
        }
        registrations
    }

    /// The binding that triggers an action, if the action is bound.
    pub fn binding_for_action(&self, action: ControlAction) -> (binding: Option<&HotkeyBinding>)
        ensures
            match binding {
                Some(binding) => Some(binding@) == (match action {
                    ControlAction::Record => self.recording_binding(),
                    ControlAction::Play => self.playback_binding(),
                }),
                None => (match action {
                    ControlAction::Record => self.recording_binding(),
                    ControlAction::Play => self.playback_binding(),
                }) is None,
            },
    {
        match action {
            ControlAction::Record => self.start_recording.as_ref(),
            ControlAction::Play => self.start_playback.as_ref(),
        }
    }
}

/// Shared orchestration over hotkeys, recording finalization, and playback preparation.
#[derive(Debug, Default, Clone, Copy)]
pub struct ControlController;

/// The action an activated control hotkey stands for.
pub open spec fn action_for_identifier(identifier: i32) -> Option<ControlAction> {
    if identifier == CONTROL_RECORD_IDENTIFIER {
        Some(ControlAction::Record)
    } else if identifier == CONTROL_PLAY_IDENTIFIER {
        Some(ControlAction::Play)
    } else {
        None
    }
}

/// An activation is decided as the action whose binding was registered under
/// its identifier: the start-recording identifier stands for recording, the
/// start-playback identifier for playback, and the stop identifier for neither;
/// the three identifiers differ.
pub proof fn lemma_identifiers_name_their_actions()
    ensures
        action_for_identifier(CONTROL_RECORD_IDENTIFIER) == Some(ControlAction::Record),
        action_for_identifier(CONTROL_PLAY_IDENTIFIER) == Some(ControlAction::Play),
        action_for_identifier(CONTROL_STOP_IDENTIFIER) is None,
        CONTROL_RECORD_IDENTIFIER != CONTROL_PLAY_IDENTIFIER,
        CONTROL_RECORD_IDENTIFIER != CONTROL_STOP_IDENTIFIER,
        CONTROL_PLAY_IDENTIFIER != CONTROL_STOP_IDENTIFIER,
{
}

impl ControlController {
    /// Decides which action an activated control hotkey triggers: the action whose
    /// identifier fired, provided it is bound.
    pub fn action_for_activation(
        self,
        bindings: &ControlBindings,
        activation: HotkeyActivation,
    ) -> (result: Result<ControlAction, WindowsBackendError>)
        ensures
            match action_for_identifier(activation.spec_identifier()) {
                None => (result matches Err(WindowsBackendError::Internal(message)) && message@
                    == "unknown control action hotkey"@),
                Some(action) => {
                    let bound = match action {
                        ControlAction::Record => bindings.recording_binding(),
                        ControlAction::Play => bindings.playback_binding(),
                    };
                    &&& bound is Some ==> result == Ok::<ControlAction, WindowsBackendError>(action)
                    &&& bound is None ==> (result matches Err(WindowsBackendError::Internal(message))
                        && message@ == "missing binding for activated control action"@)
                },
            },
    {
        let identifier = activation.identifier();
        let action = if identifier == CONTROL_RECORD_IDENTIFIER {
            ControlAction::Record
        } else if identifier == CONTROL_PLAY_IDENTIFIER {
            ControlAction::Play
        } else {
            return Err(WindowsBackendError::Internal("unknown control action hotkey"));
        };
        match bindings.binding_for_action(action) {
            Some(_) => Ok(action),
            None => Err(WindowsBackendError::Internal("missing binding for activated control action")),
        }
    }

    /// The action to run once the start chord is released: the action when the
    /// release completed, none when shutdown cancelled the wait.
    pub fn action_after_release(self, action: ControlAction, release: HotkeyWaitOutcome) -> (next: Option<ControlAction>)
        ensures
            next == (match release {
                HotkeyWaitOutcome::Activated => Some(action),
                HotkeyWaitOutcome::Cancelled => None,
            }),
    {
        match release {
            HotkeyWaitOutcome::Activated => Some(action),
            HotkeyWaitOutcome::Cancelled => None,
        }
    }
}

} // verus!
