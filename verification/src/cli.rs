use vstd::prelude::*;

use crate::global_hotkeys::{HotkeyModifiers, HotkeyRegistration, MOD_ALT, MOD_CONTROL, MOD_SHIFT, MOD_WIN};
use crate::hotkey::{chord_tokens, key_for_token, modifier_for_token, HotkeyKey, HotkeyModifier};
use crate::text::{chars_of, copy_range, push_str, split_chars, string_from_chars, trim, trimmed_bounds};

verus! {

/// The recording strategies of the Windows backend.
#[derive(Debug, Clone, Copy, PartialEq, Eq, Structural)]
pub enum RecordingStrategy {
    RawInput,
    LowLevelHooks,
}

/// The recording strategy as the command line names it.
#[derive(Debug, Clone, Copy, PartialEq, Eq, Structural)]
pub enum RecordingStrategyArgument {
    RawInput,
    LowLevelHooks,
}

impl RecordingStrategyArgument {
    /// The backend strategy this argument selects.
    pub fn into_backend_strategy(self) -> (strategy: RecordingStrategy)
        ensures
            strategy == (match self {
                RecordingStrategyArgument::RawInput => RecordingStrategy::RawInput,
                RecordingStrategyArgument::LowLevelHooks => RecordingStrategy::LowLevelHooks,
            }),
    {
        match self {
            RecordingStrategyArgument::RawInput => RecordingStrategy::RawInput,
            RecordingStrategyArgument::LowLevelHooks => RecordingStrategy::LowLevelHooks,
        }
    }
}

/// A hotkey modifier as the command line names it.
#[derive(Debug, Clone, Copy, PartialEq, Eq, Structural)]
pub enum HotkeyModifierArgument {
    Control,
    Alt,
    Shift,
    Win,
}

/// The command-line modifier of a shared modifier.
pub open spec fn modifier_argument(modifier: HotkeyModifier) -> HotkeyModifierArgument {
    match modifier {
        HotkeyModifier::Control => HotkeyModifierArgument::Control,
        HotkeyModifier::Alt => HotkeyModifierArgument::Alt,
        HotkeyModifier::Shift => HotkeyModifierArgument::Shift,
        HotkeyModifier::Win => HotkeyModifierArgument::Win,
    }
}

/// The Windows flag of a command-line modifier.
pub open spec fn argument_flag(modifier: HotkeyModifierArgument) -> u32 {
    match modifier {
        HotkeyModifierArgument::Control => MOD_CONTROL,
        HotkeyModifierArgument::Alt => MOD_ALT,
        HotkeyModifierArgument::Shift => MOD_SHIFT,
        HotkeyModifierArgument::Win => MOD_WIN,
    }
}

/// The user-facing name of a command-line modifier.
pub open spec fn argument_modifier_name(modifier: HotkeyModifierArgument) -> Seq<char> {
    match modifier {
        HotkeyModifierArgument::Control => "Ctrl"@,
        HotkeyModifierArgument::Alt => "Alt"@,
        HotkeyModifierArgument::Shift => "Shift"@,
        HotkeyModifierArgument::Win => "Win"@,
    }
}

impl HotkeyModifierArgument {
    /// The Windows modifier flag of this modifier.
    pub fn into_hotkey_modifier(self) -> (modifiers: HotkeyModifiers)
        ensures
            modifiers.mask() == argument_flag(self),
    {
        match self {
            HotkeyModifierArgument::Control => HotkeyModifiers::control(),
            HotkeyModifierArgument::Alt => HotkeyModifiers::alt(),
            HotkeyModifierArgument::Shift => HotkeyModifiers::shift(),
            HotkeyModifierArgument::Win => HotkeyModifiers::win(),
        }
    }

    /// The user-facing name of this modifier.
    pub fn display_name(self) -> (name: &'static str)
        ensures
            name@ == argument_modifier_name(self),
    {
        match self {
            HotkeyModifierArgument::Control => "Ctrl",
            HotkeyModifierArgument::Alt => "Alt",
            HotkeyModifierArgument::Shift => "Shift",
            HotkeyModifierArgument::Win => "Win",
        }
    }

    /// The modifier a token names, ignoring the case of ASCII letters.
    pub fn parse_token(token: &[char]) -> (modifier: Option<Self>)
        ensures
            modifier == (match modifier_for_token(token@) {
                Some(shared) => Some(modifier_argument(shared)),
                None => None,
            }),
    {
        match HotkeyModifier::parse_token(token) {
            Some(HotkeyModifier::Control) => Some(HotkeyModifierArgument::Control),
            Some(HotkeyModifier::Alt) => Some(HotkeyModifierArgument::Alt),
            Some(HotkeyModifier::Shift) => Some(HotkeyModifierArgument::Shift),
            Some(HotkeyModifier::Win) => Some(HotkeyModifierArgument::Win),
            None => None,
        }
    }
}

/// A hotkey base key as the command line names it.
#[derive(Debug, Clone, Copy, PartialEq, Eq, Structural)]
pub enum HotkeyKeyArgument {
    Escape,
    F1,
    F2,
    F3,
    F4,
    F5,
    F6,
    F7,
    F8,
    F9,
    F10,
    F11,
    F12,
}

/// The command-line key of a shared key.
pub open spec fn key_argument(key: HotkeyKey) -> HotkeyKeyArgument {
    match key {
        HotkeyKey::Escape => HotkeyKeyArgument::Escape,
        HotkeyKey::F1 => HotkeyKeyArgument::F1,
        HotkeyKey::F2 => HotkeyKeyArgument::F2,
        HotkeyKey::F3 => HotkeyKeyArgument::F3,
        HotkeyKey::F4 => HotkeyKeyArgument::F4,
        HotkeyKey::F5 => HotkeyKeyArgument::F5,
        HotkeyKey::F6 => HotkeyKeyArgument::F6,
        HotkeyKey::F7 => HotkeyKeyArgument::F7,
        HotkeyKey::F8 => HotkeyKeyArgument::F8,
        HotkeyKey::F9 => HotkeyKeyArgument::F9,
        HotkeyKey::F10 => HotkeyKeyArgument::F10,
        HotkeyKey::F11 => HotkeyKeyArgument::F11,
        HotkeyKey::F12 => HotkeyKeyArgument::F12,
    }
}

/// The Windows virtual-key code of a command-line key.
pub open spec fn argument_key_code(key: HotkeyKeyArgument) -> u32 {
    match key {
        HotkeyKeyArgument::Escape => 0x1B,
        HotkeyKeyArgument::F1 => 0x70,
        HotkeyKeyArgument::F2 => 0x71,
        HotkeyKeyArgument::F3 => 0x72,
        HotkeyKeyArgument::F4 => 0x73,
        HotkeyKeyArgument::F5 => 0x74,
        HotkeyKeyArgument::F6 => 0x75,
        HotkeyKeyArgument::F7 => 0x76,
        HotkeyKeyArgument::F8 => 0x77,
        HotkeyKeyArgument::F9 => 0x78,
        HotkeyKeyArgument::F10 => 0x79,
        HotkeyKeyArgument::F11 => 0x7A,
        HotkeyKeyArgument::F12 => 0x7B,
    }
}

/// The user-facing name of a command-line key.
pub open spec fn argument_key_name(key: HotkeyKeyArgument) -> Seq<char> {
    match key {
        HotkeyKeyArgument::Escape => "Escape"@,
        HotkeyKeyArgument::F1 => "F1"@,
        HotkeyKeyArgument::F2 => "F2"@,
        HotkeyKeyArgument::F3 => "F3"@,
        HotkeyKeyArgument::F4 => "F4"@,
        HotkeyKeyArgument::F5 => "F5"@,
        HotkeyKeyArgument::F6 => "F6"@,
        HotkeyKeyArgument::F7 => "F7"@,
        HotkeyKeyArgument::F8 => "F8"@,
        HotkeyKeyArgument::F9 => "F9"@,
        HotkeyKeyArgument::F10 => "F10"@,
        HotkeyKeyArgument::F11 => "F11"@,
        HotkeyKeyArgument::F12 => "F12"@,
    }
}

impl HotkeyKeyArgument {
    /// The Windows virtual-key code of this key.
    pub fn virtual_key_code(self) -> (code: u32)
        ensures
            code == argument_key_code(self),
    {
        match self {
            HotkeyKeyArgument::Escape => 0x1B,
            HotkeyKeyArgument::F1 => 0x70,
            HotkeyKeyArgument::F2 => 0x71,
            HotkeyKeyArgument::F3 => 0x72,
            HotkeyKeyArgument::F4 => 0x73,
            HotkeyKeyArgument::F5 => 0x74,
            HotkeyKeyArgument::F6 => 0x75,
            HotkeyKeyArgument::F7 => 0x76,
            HotkeyKeyArgument::F8 => 0x77,
            HotkeyKeyArgument::F9 => 0x78,
            HotkeyKeyArgument::F10 => 0x79,
            HotkeyKeyArgument::F11 => 0x7A,
            HotkeyKeyArgument::F12 => 0x7B,
        }
    }

    /// The user-facing name of this key.
    pub fn display_name(self) -> (name: &'static str)
        ensures
            name@ == argument_key_name(self),
    {
        match self {
            HotkeyKeyArgument::Escape => "Escape",
            HotkeyKeyArgument::F1 => "F1",
            HotkeyKeyArgument::F2 => "F2",
            HotkeyKeyArgument::F3 => "F3",
            HotkeyKeyArgument::F4 => "F4",
            HotkeyKeyArgument::F5 => "F5",
            HotkeyKeyArgument::F6 => "F6",
            HotkeyKeyArgument::F7 => "F7",
            HotkeyKeyArgument::F8 => "F8",
            HotkeyKeyArgument::F9 => "F9",
            HotkeyKeyArgument::F10 => "F10",
            HotkeyKeyArgument::F11 => "F11",
            HotkeyKeyArgument::F12 => "F12",
        }
    }

    /// The key a token names, ignoring the case of ASCII letters.
    pub fn parse_token(token: &[char]) -> (key: Option<Self>)
        ensures
            key == (match key_for_token(token@) {
                Some(shared) => Some(key_argument(shared)),
                None => None,
            }),
    {
        match HotkeyKey::parse_token(token) {
            Some(HotkeyKey::Escape) => Some(HotkeyKeyArgument::Escape),
            Some(HotkeyKey::F1) => Some(HotkeyKeyArgument::F1),
            Some(HotkeyKey::F2) => Some(HotkeyKeyArgument::F2),
            Some(HotkeyKey::F3) => Some(HotkeyKeyArgument::F3),
            Some(HotkeyKey::F4) => Some(HotkeyKeyArgument::F4),
            Some(HotkeyKey::F5) => Some(HotkeyKeyArgument::F5),
            Some(HotkeyKey::F6) => Some(HotkeyKeyArgument::F6),
            Some(HotkeyKey::F7) => Some(HotkeyKeyArgument::F7),
            Some(HotkeyKey::F8) => Some(HotkeyKeyArgument::F8),
            Some(HotkeyKey::F9) => Some(HotkeyKeyArgument::F9),
            Some(HotkeyKey::F10) => Some(HotkeyKeyArgument::F10),
            Some(HotkeyKey::F11) => Some(HotkeyKeyArgument::F11),
            Some(HotkeyKey::F12) => Some(HotkeyKeyArgument::F12),
            None => None,
        }
    }
}

/// The flags of a list of command-line modifiers, combined.
pub open spec fn argument_flags(modifiers: Seq<HotkeyModifierArgument>) -> u32
    decreases modifiers.len(),
{
    if modifiers.len() == 0 {
        0
    } else {
        argument_flags(modifiers.drop_last()) | argument_flag(modifiers.last())
    }
}

/// The names of a list of command-line modifiers, each followed by `+`.
pub open spec fn argument_modifiers_text(modifiers: Seq<HotkeyModifierArgument>) -> Seq<char>
    decreases modifiers.len(),
{
    if modifiers.len() == 0 {
        Seq::empty()
    } else {
        argument_modifiers_text(modifiers.drop_last()) + argument_modifier_name(modifiers.last())
            + "+"@
    }
}

/// The label of a hotkey: the modifier names, then the key name, joined by `+`.
pub open spec fn hotkey_label(modifiers: Seq<HotkeyModifierArgument>, key: HotkeyKeyArgument) -> Seq<
    char,
> {
    argument_modifiers_text(modifiers) + argument_key_name(key)
}

/// Combines command-line modifiers into one set of Windows flags.
pub fn combine_hotkey_modifiers(modifiers: &[HotkeyModifierArgument]) -> (combined: HotkeyModifiers)
    ensures
        combined.mask() == argument_flags(modifiers@),
{
    let mut combined = HotkeyModifiers::empty();
    let mut index: usize = 0;
    while index < modifiers.len()
        invariant
            index <= modifiers.len(),
            combined.mask() == argument_flags(modifiers@.subrange(0, index as int)),
        decreases modifiers.len() - index,
    {
        combined = combined.union(modifiers[index].into_hotkey_modifier());
        let ghost prefix = modifiers@.subrange(0, index + 1);
        assert(prefix.drop_last() =~= modifiers@.subrange(0, index as int));
        index += 1;
    }
    assert(modifiers@.subrange(0, modifiers.len() as int) =~= modifiers@);
    combined
}

/// Combines command-line modifiers into one set of Windows flags; a global
/// hotkey needs at least one, so an empty list gives none.
pub fn build_hotkey_modifiers(modifiers: &[HotkeyModifierArgument]) -> (combined: Option<
    HotkeyModifiers,
>)
    ensures
        modifiers@.len() == 0 ==> combined is None,
        modifiers@.len() > 0 ==> (combined matches Some(flags) && flags.mask() == argument_flags(
            modifiers@,
        )),
{
    if modifiers.len() == 0 {
        return None;
    }
    Some(combine_hotkey_modifiers(modifiers))
}

/// Renders a hotkey label such as `Ctrl+Alt+F9`.
pub fn format_hotkey_label(modifiers: &[HotkeyModifierArgument], key: HotkeyKeyArgument) -> (label: String)
    ensures
        label@ == hotkey_label(modifiers@, key),
{
    let mut label = String::new();
    let mut index: usize = 0;
    while index < modifiers.len()
        invariant
            index <= modifiers.len(),
            label@ == argument_modifiers_text(modifiers@.subrange(0, index as int)),
        decreases modifiers.len() - index,
    {
        let ghost before = modifiers@.subrange(0, index as int);
        push_str(&mut label, modifiers[index].display_name());
        push_str(&mut label, "+");
        index += 1;
        proof {
            let after = modifiers@.subrange(0, index as int);
            assert(after.drop_last() =~= before);
        }
    }
    push_str(&mut label, key.display_name());
    assert(modifiers@.subrange(0, modifiers.len() as int) =~= modifiers@);
    label
}

/// A hotkey chord given on the command line: modifiers in the order given, and
/// a base key.
#[derive(Debug, Clone, PartialEq, Eq)]
pub struct HotkeyBindingArgument {
    pub modifiers: Vec<HotkeyModifierArgument>,
    pub key: HotkeyKeyArgument,
}

/// The progress of parsing command-line tokens: the modifiers so far and the
/// key, if one was seen, or the message of the first error.
pub type ArgumentProgress = Result<(Seq<HotkeyModifierArgument>, Option<HotkeyKeyArgument>), Seq<char>>;

/// Parses one more command-line token.
pub open spec fn argument_step(
    modifiers: Seq<HotkeyModifierArgument>,
    key: Option<HotkeyKeyArgument>,
    token: Seq<char>,
) -> ArgumentProgress {
    if token.len() == 0 {
        Err("hotkeys cannot contain empty segments"@)
    } else if modifier_for_token(token) is Some {
        let modifier = modifier_argument(modifier_for_token(token)->0);
        if modifiers.contains(modifier) {
            Err("hotkey modifier `"@ + token + "` was provided more than once"@)
        } else {
            Ok((modifiers.push(modifier), key))
        }
    } else if key_for_token(token) is Some {
        if key is Some {
            Err("hotkeys can only contain one base key such as escape or f1-f12"@)
        } else {
            Ok((modifiers, Some(key_argument(key_for_token(token)->0))))
        }
    } else {
        Err(
            "unsupported hotkey token `"@ + token
                + "`; use modifiers like ctrl/alt/shift/win and keys like escape or f1-f12"@,
        )
    }
}

/// Parses command-line tokens left to right, stopping at the first error.
pub open spec fn argument_tokens(tokens: Seq<Seq<char>>) -> ArgumentProgress
    decreases tokens.len(),
{
    if tokens.len() == 0 {
        Ok((Seq::empty(), None))
    } else {
        match argument_tokens(tokens.drop_last()) {
            Err(message) => Err(message),
            Ok((modifiers, key)) => argument_step(modifiers, key, tokens.last()),
        }
    }
}

/// The outcome of parsing a command-line hotkey: the tokens, then at least one
/// modifier, then a base key.
pub open spec fn argument_outcome(text: Seq<char>) -> Result<
    (Seq<HotkeyModifierArgument>, HotkeyKeyArgument),
    Seq<char>,
> {
    match argument_tokens(chord_tokens(text)) {
        Err(message) => Err(message),
        Ok((modifiers, key)) => if modifiers.len() == 0 {
            Err("hotkeys require at least one modifier such as ctrl, alt, shift, or win"@)
        } else {
            match key {
                None => Err("hotkeys require a base key such as escape or f1-f12"@),
                Some(key) => Ok((modifiers, key)),
            }
        },
    }
}

/// The content of a parse result.
pub open spec fn argument_result_view(result: Result<HotkeyBindingArgument, String>) -> Result<
    (Seq<HotkeyModifierArgument>, HotkeyKeyArgument),
    Seq<char>,
> {
    match result {
        Ok(binding) => Ok((binding.modifiers@, binding.key)),
        Err(message) => Err(message@),
    }
}

proof fn lemma_argument_error_persists(tokens: Seq<Seq<char>>, count: int)
    requires
        0 < count <= tokens.len(),
        argument_tokens(tokens.subrange(0, count)) is Err,
    ensures
        argument_tokens(tokens) == argument_tokens(tokens.subrange(0, count)),
    decreases tokens.len() - count,
{
    if count < tokens.len() {
        assert(tokens.subrange(0, count + 1).drop_last() =~= tokens.subrange(0, count));
        lemma_argument_error_persists(tokens, count + 1);
    } else {
        assert(tokens.subrange(0, count) =~= tokens);
    }
}

fn contains_argument(modifiers: &[HotkeyModifierArgument], modifier: HotkeyModifierArgument) -> (found: bool)
    ensures
        found == modifiers@.contains(modifier),
{
    let mut index: usize = 0;
    while index < modifiers.len()
        invariant
            index <= modifiers.len(),
            forall|i: int| 0 <= i < index ==> modifiers@[i] != modifier,
        decreases modifiers.len() - index,
    {
        if modifiers[index] == modifier {
            return true;
        }
        index += 1;
    }
    false
}

fn quoted_message(before: &str, token: &[char], after: &str) -> (message: String)
    ensures
        message@ == before@ + token@ + after@,
{
    let mut message = String::new();
    push_str(&mut message, before);
    let token_text = string_from_chars(token);
    push_str(&mut message, token_text.as_str());
    push_str(&mut message, after);
    assert(message@ =~= before@ + token@ + after@);
    message
}

impl HotkeyBindingArgument {
    /// The global hotkey registration of this chord under `identifier`.
    pub fn registration(&self, identifier: i32) -> (registration: HotkeyRegistration)
        ensures
            registration.spec_identifier() == identifier,
            registration.spec_modifiers().mask() == argument_flags(self.modifiers@),
            registration.spec_virtual_key_code() == argument_key_code(self.key),
            registration.spec_suppresses_auto_repeat(),
    {
        HotkeyRegistration::new(
            identifier,
            combine_hotkey_modifiers(self.modifiers.as_slice()),
            self.key.virtual_key_code(),
        )
    }

    /// The label of this chord, such as `Ctrl+Shift+F9`.
    pub fn to_string(&self) -> (label: String)
        ensures
            label@ == hotkey_label(self.modifiers@, self.key),
    {
        format_hotkey_label(self.modifiers.as_slice(), self.key)
    }

    /// Parses a `+`-separated chord such as `ctrl+shift+f9`: tokens are trimmed
    /// and matched without regard to ASCII case; there must be at least one
    /// modifier, each at most once, and exactly one base key.
    pub fn parse_text(text: &str) -> (result: Result<Self, String>)
        ensures
            argument_result_view(result) == argument_outcome(text@),
    {
        let chars = chars_of(text);
        let segments = split_chars(&chars, '+');
        let ghost tokens = chord_tokens(text@);
        let mut modifiers: Vec<HotkeyModifierArgument> = Vec::new();
        let mut key: Option<HotkeyKeyArgument> = None;
        let mut index: usize = 0;
        assert(tokens.len() == segments@.len());
        while index < segments.len()
            invariant
                index <= segments.len(),
                tokens == chord_tokens(text@),
                tokens.len() == segments@.len(),
                forall|i: int|
                    0 <= i < segments@.len() ==> #[trigger] tokens[i] == trim(segments@[i]@),
                argument_tokens(tokens.subrange(0, index as int)) == Ok::<
                    (Seq<HotkeyModifierArgument>, Option<HotkeyKeyArgument>),
                    Seq<char>,
                >((modifiers@, key)),
            decreases segments.len() - index,
        {
            let segment = &segments[index];
            let (start, end) = trimmed_bounds(segment.as_slice());
            let token = copy_range(segment.as_slice(), start, end);
            let ghost prefix = tokens.subrange(0, index + 1);
            proof {
                assert(prefix.drop_last() =~= tokens.subrange(0, index as int));
                assert(token@ == tokens[index as int]);
            }
            if token.len() == 0 {
                proof {
                    lemma_argument_error_persists(tokens, index as int + 1);
                }
                return Err("hotkeys cannot contain empty segments".to_owned());
            }
            match HotkeyModifierArgument::parse_token(token.as_slice()) {
                Some(modifier) => {
                    if contains_argument(modifiers.as_slice(), modifier) {
                        proof {
                            lemma_argument_error_persists(tokens, index as int + 1);
                        }
                        return Err(
                            quoted_message(
                                "hotkey modifier `",
                                token.as_slice(),
                                "` was provided more than once",
                            ),
                        );
                    }
                    modifiers.push(modifier);
                },
                None => {
                    match HotkeyKeyArgument::parse_token(token.as_slice()) {
                        Some(parsed) => {
                            if key.is_some() {
                                proof {
                                    lemma_argument_error_persists(tokens, index as int + 1);
                                }
                                return Err(
                                    "hotkeys can only contain one base key such as escape or f1-f12".to_owned(),
                                );
                            }
                            key = Some(parsed);
                        },
                        None => {
                            proof {
                                lemma_argument_error_persists(tokens, index as int + 1);
                            }
                            return Err(
                                quoted_message(
                                    "unsupported hotkey token `",
                                    token.as_slice(),
                                    "`; use modifiers like ctrl/alt/shift/win and keys like escape or f1-f12",
                                ),
                            );
                        },
                    }
                },
            }
            index += 1;
        }
        assert(tokens.subrange(0, segments.len() as int) =~= tokens);
        if modifiers.len() == 0 {
            return Err(
                "hotkeys require at least one modifier such as ctrl, alt, shift, or win".to_owned(),
            );
        }
        match key {
            None => Err("hotkeys require a base key such as escape or f1-f12".to_owned()),
            Some(key) => Ok(HotkeyBindingArgument { modifiers, key }),
        }
    }
}

impl core::str::FromStr for HotkeyBindingArgument {
    type Err = String;

    fn from_str(value: &str) -> (result: Result<Self, Self::Err>)
        ensures
            argument_result_view(result) == argument_outcome(value@),
    {
        HotkeyBindingArgument::parse_text(value)
    }
}

/// What the command line tells the user stops a running action.
pub open spec fn stop_controls_text(stop_hotkey: Option<(Seq<HotkeyModifierArgument>, HotkeyKeyArgument)>) -> Seq<
    char,
> {
    match stop_hotkey {
        Some((modifiers, key)) => hotkey_label(modifiers, key) + " or Ctrl+C"@,
        None => "Ctrl+C"@,
    }
}

/// Renders the controls that stop a running action: the stop hotkey, if any,
/// or Ctrl+C.
pub fn format_stop_controls(stop_hotkey: Option<&HotkeyBindingArgument>) -> (text: String)
    ensures
        text@ == stop_controls_text(
            match stop_hotkey {
                Some(hotkey) => Some((hotkey.modifiers@, hotkey.key)),
                None => None,
            },
        ),
{
    match stop_hotkey {
        Some(hotkey) => {
            let mut text = hotkey.to_string();
            push_str(&mut text, " or Ctrl+C");
            text
        },
        None => "Ctrl+C".to_owned(),
    }
}

/// The key of the built-in sample recording: scan code 30, named `A`.
pub open spec fn sample_key_view() -> crate::event::KeyView {
    (30u16, Some("A"@), false)
}

/// The built-in sample recording holds the metadata of a 1920x1080 desktop at
/// the origin with the given title, and two events: `A` pressed at the start and
/// released 40 ms later.
pub open spec fn is_sample_recording(
    recording: (crate::recording::RecordingMetadataView, Seq<crate::event::InputEvent>),
    title: Option<Seq<char>>,
) -> bool {
    let (metadata, events) = recording;
    &&& metadata.schema_version.number() == 1
    &&& crate::event::optional_text_view(metadata.title) == title
    &&& metadata.display.virtual_origin == (crate::event::AbsoluteScreenPoint { x: 0, y: 0 })
    &&& metadata.display.virtual_size == (crate::event::ScreenSize { width: 1920, height: 1080 })
    &&& metadata.display.monitors.len() == 0
    &&& events.len() == 2
    &&& events[0].sequence == 0
    &&& events[0].elapsed_time.micros() == 0
    &&& events[0].action matches crate::event::InputAction::KeyPressed { key } && key@ == sample_key_view()
    &&& events[1].sequence == 1
    &&& events[1].elapsed_time.micros() == 40_000
    &&& events[1].action matches crate::event::InputAction::KeyReleased { key } && key@ == sample_key_view()
}

/// Builds the built-in sample recording with an optional title, which must not
/// be blank.
pub fn sample_recording(title: Option<&str>) -> (recording: crate::recording::Recording)
    requires
        title matches Some(text) ==> !crate::text::is_blank(text@),
    ensures
        is_sample_recording(
            recording@,
            match title {
                Some(text) => Some(text@),
                None => None,
            },
        ),
{
    let title_text: Option<String> = match title {
        Some(text) => Some(text.to_owned()),
        None => None,
    };
    let metadata = crate::recording::RecordingMetadata {
        schema_version: crate::event::SchemaVersion::new(1),
        title: title_text,
        display: crate::event::DisplayMetadata {
            virtual_origin: crate::event::AbsoluteScreenPoint { x: 0, y: 0 },
            virtual_size: crate::event::ScreenSize { width: 1920, height: 1080 },
            monitors: Vec::new(),
        },
    };
    let pressed_key = crate::event::KeyDescriptor {
        scan_code: crate::event::ScanCode::new(30),
        logical_name: Some("A".to_owned()),
        extended: false,
    };
    let released_key = crate::event::KeyDescriptor {
        scan_code: crate::event::ScanCode::new(30),
        logical_name: Some("A".to_owned()),
        extended: false,
    };
    let mut events: Vec<crate::event::InputEvent> = Vec::new();
    events.push(
        crate::event::InputEvent {
            sequence: 0,
            elapsed_time: crate::event::EventOffset::from_micros(0),
            action: crate::event::InputAction::KeyPressed { key: pressed_key },
        },
    );
    events.push(
        crate::event::InputEvent {
            sequence: 1,
            elapsed_time: crate::event::EventOffset::from_micros(40_000),
            action: crate::event::InputAction::KeyReleased { key: released_key },
        },
    );
    proof {
        assert(crate::recording::event_in_order(events@, 0));
        assert(crate::recording::event_in_order(events@, 1));
        crate::recording::lemma_events_error_none(events@);
        assert(crate::event::surface_error(metadata.display.virtual_size, "virtual display") is None);
        assert(!exists|i: int| crate::event::first_zero_sized_monitor(metadata.display.monitors@, i));
    }
    match crate::recording::Recording::new(metadata, events) {
        Ok(recording) => recording,
        Err(_) => vstd::pervasive::unreached(),
    }
}

/// The shared modifier a command-line modifier stands for.
pub open spec fn shared_modifier(modifier: HotkeyModifierArgument) -> HotkeyModifier {
    match modifier {
        HotkeyModifierArgument::Control => HotkeyModifier::Control,
        HotkeyModifierArgument::Alt => HotkeyModifier::Alt,
        HotkeyModifierArgument::Shift => HotkeyModifier::Shift,
        HotkeyModifierArgument::Win => HotkeyModifier::Win,
    }
}

/// The shared key a command-line key stands for.
pub open spec fn shared_key(key: HotkeyKeyArgument) -> HotkeyKey {
    match key {
        HotkeyKeyArgument::Escape => HotkeyKey::Escape,
        HotkeyKeyArgument::F1 => HotkeyKey::F1,
        HotkeyKeyArgument::F2 => HotkeyKey::F2,
        HotkeyKeyArgument::F3 => HotkeyKey::F3,
        HotkeyKeyArgument::F4 => HotkeyKey::F4,
        HotkeyKeyArgument::F5 => HotkeyKey::F5,
        HotkeyKeyArgument::F6 => HotkeyKey::F6,
        HotkeyKeyArgument::F7 => HotkeyKey::F7,
        HotkeyKeyArgument::F8 => HotkeyKey::F8,
        HotkeyKeyArgument::F9 => HotkeyKey::F9,
        HotkeyKeyArgument::F10 => HotkeyKey::F10,
        HotkeyKeyArgument::F11 => HotkeyKey::F11,
        HotkeyKeyArgument::F12 => HotkeyKey::F12,
    }
}

proof fn lemma_argument_modifier_name(modifier: HotkeyModifierArgument)
    ensures
        argument_modifier_name(modifier) == crate::hotkey::modifier_display_name(shared_modifier(modifier)),
        modifier_for_token(argument_modifier_name(modifier)) == Some(shared_modifier(modifier)),
        modifier_argument(shared_modifier(modifier)) == modifier,
        key_for_token(argument_modifier_name(modifier)) is None,
        crate::hotkey::is_plain_token(argument_modifier_name(modifier)),
{
    crate::hotkey::lemma_modifier_name_parses(shared_modifier(modifier));
}

proof fn lemma_argument_key_name(key: HotkeyKeyArgument)
    ensures
        argument_key_name(key) == crate::hotkey::key_display_name(shared_key(key)),
        key_for_token(argument_key_name(key)) == Some(shared_key(key)),
        key_argument(shared_key(key)) == key,
        modifier_for_token(argument_key_name(key)) is None,
        crate::hotkey::is_plain_token(argument_key_name(key)),
{
    crate::hotkey::lemma_key_name_parses(shared_key(key));
}

/// The names of a list of command-line modifiers, in order.
pub open spec fn argument_names(modifiers: Seq<HotkeyModifierArgument>) -> Seq<Seq<char>> {
    Seq::new(modifiers.len(), |i: int| argument_modifier_name(modifiers[i]))
}

proof fn lemma_argument_text_split(modifiers: Seq<HotkeyModifierArgument>)
    ensures
        crate::text::split_at_char(argument_modifiers_text(modifiers), '+') == argument_names(
            modifiers,
        ).push(Seq::<char>::empty()),
    decreases modifiers.len(),
{
    reveal_strlit("+");
    if modifiers.len() == 0 {
        assert(argument_names(modifiers).push(Seq::<char>::empty()) =~= seq![Seq::<char>::empty()]);
    } else {
        let shorter = modifiers.drop_last();
        lemma_argument_text_split(shorter);
        let name = argument_modifier_name(modifiers.last());
        lemma_argument_modifier_name(modifiers.last());
        let before = argument_modifiers_text(shorter);
        crate::text::lemma_split_append_plain(before, name, '+');
        let with_name = before + name;
        assert(argument_modifiers_text(modifiers) == with_name.push('+')) by {
            assert(before + name + "+"@ =~= with_name.push('+'));
        }
        assert(with_name.push('+').drop_last() =~= with_name);
        let previous = argument_names(shorter).push(Seq::<char>::empty());
        assert(previous.last() + name =~= name);
        assert(previous.update(previous.len() - 1, name) =~= argument_names(modifiers));
        assert(crate::text::split_at_char(argument_modifiers_text(modifiers), '+') =~= argument_names(
            modifiers,
        ).push(Seq::<char>::empty()));
    }
}

proof fn lemma_argument_names_parse(modifiers: Seq<HotkeyModifierArgument>, count: int)
    requires
        modifiers.no_duplicates(),
        0 <= count <= modifiers.len(),
    ensures
        argument_tokens(argument_names(modifiers).subrange(0, count)) == Ok::<
            (Seq<HotkeyModifierArgument>, Option<HotkeyKeyArgument>),
            Seq<char>,
        >((modifiers.subrange(0, count), None)),
    decreases count,
{
    if count > 0 {
        lemma_argument_names_parse(modifiers, count - 1);
        let tokens = argument_names(modifiers).subrange(0, count);
        assert(tokens.drop_last() =~= argument_names(modifiers).subrange(0, count - 1));
        lemma_argument_modifier_name(modifiers[count - 1]);
        let earlier = modifiers.subrange(0, count - 1);
        assert(!earlier.contains(modifiers[count - 1])) by {
            if earlier.contains(modifiers[count - 1]) {
                let i = choose|i: int| 0 <= i < earlier.len() && earlier[i] == modifiers[count - 1];
                assert(modifiers[i] == modifiers[count - 1]);
            }
        }
        assert(earlier.push(modifiers[count - 1]) =~= modifiers.subrange(0, count));
    } else {
        assert(argument_names(modifiers).subrange(0, 0) =~= Seq::<Seq<char>>::empty());
        assert(modifiers.subrange(0, 0) =~= Seq::<HotkeyModifierArgument>::empty());
    }
}

/// The label of a command-line hotkey parses back to the same hotkey: for at
/// least one modifier, each given once, and any key, the label's parse gives
/// the modifiers in the same order and the key.
pub proof fn lemma_hotkey_label_round_trip(modifiers: Seq<HotkeyModifierArgument>, key: HotkeyKeyArgument)
    requires
        modifiers.len() > 0,
        modifiers.no_duplicates(),
    ensures
        argument_outcome(hotkey_label(modifiers, key)) == Ok::<
            (Seq<HotkeyModifierArgument>, HotkeyKeyArgument),
            Seq<char>,
        >((modifiers, key)),
{
    let names = argument_names(modifiers);
    let key_name = argument_key_name(key);
    lemma_argument_key_name(key);
    lemma_argument_text_split(modifiers);
    crate::text::lemma_split_append_plain(argument_modifiers_text(modifiers), key_name, '+');
    let segments = crate::text::split_at_char(hotkey_label(modifiers, key), '+');
    let previous = names.push(Seq::<char>::empty());
    assert(previous.last() + key_name =~= key_name);
    assert(segments =~= names.push(key_name));
    let tokens = chord_tokens(hotkey_label(modifiers, key));
    assert forall|i: int| 0 <= i < segments.len() implies #[trigger] trim(segments[i]) == segments[i] by {
        if i < names.len() {
            lemma_argument_modifier_name(modifiers[i]);
        }
        crate::text::lemma_trim_unpadded(segments[i]);
    }
    assert(tokens =~= names.push(key_name));
    lemma_argument_names_parse(modifiers, modifiers.len() as int);
    assert(names.subrange(0, modifiers.len() as int) =~= names);
    assert(modifiers.subrange(0, modifiers.len() as int) =~= modifiers);
    assert(tokens.drop_last() =~= names);
}

/// Whether a requested output file is used as given rather than placed in the
/// sessions directory: when its path is absolute or has more than one
/// component.
pub fn keeps_requested_output_path(is_absolute: bool, component_count: usize) -> (keep: bool)
    ensures
        keep == (is_absolute || component_count > 1),
{
    is_absolute || component_count > 1
}

/// Whether a requested input file is used as given rather than looked up in the
/// sessions directory: when the file exists there as given, or its path is
/// absolute or has more than one component.
pub fn keeps_requested_input_path(file_exists: bool, is_absolute: bool, component_count: usize) -> (keep: bool)
    ensures
        keep == (file_exists || is_absolute || component_count > 1),
{
    file_exists || keeps_requested_output_path(is_absolute, component_count)
}

} // verus!
