use vstd::prelude::*;

use crate::backend::WindowsBackendError;
use crate::hotkey::{key_display_name, HotkeyBinding, HotkeyKey, HotkeyModifier};
use crate::text::{bool_text, decimal_text, digit_char, hex_string, hex_text, push_str};

verus! {

/// The Windows `MOD_ALT` hotkey modifier flag.
pub const MOD_ALT: u32 = 0x0001;

/// The Windows `MOD_CONTROL` hotkey modifier flag.
pub const MOD_CONTROL: u32 = 0x0002;

/// The Windows `MOD_SHIFT` hotkey modifier flag.
pub const MOD_SHIFT: u32 = 0x0004;

/// The Windows `MOD_WIN` hotkey modifier flag.
pub const MOD_WIN: u32 = 0x0008;

/// The Windows `MOD_NOREPEAT` flag, which suppresses auto-repeated activations.
pub const MOD_NOREPEAT: u32 = 0x4000;

/// The Windows virtual-key code of the Shift keys.
pub const VK_SHIFT: i32 = 0x10;

/// The Windows virtual-key code of the Ctrl keys.
pub const VK_CONTROL: i32 = 0x11;

/// The Windows virtual-key code of the Alt keys.
pub const VK_MENU: i32 = 0x12;

/// The Windows virtual-key code of the left Windows key.
pub const VK_LWIN: i32 = 0x5B;

/// The Windows virtual-key code of the right Windows key.
pub const VK_RWIN: i32 = 0x5C;

/// Bitflags for Windows global hotkey modifiers.
#[derive(Debug, Clone, Copy, PartialEq, Eq, Structural)]
pub struct HotkeyModifiers(u32);

impl HotkeyModifiers {
    /// The flags this set holds.
    pub closed spec fn mask(self) -> u32 {
        self.0
    }

    /// The set without any modifier.
    pub fn empty() -> (modifiers: Self)
        ensures
            modifiers.mask() == 0,
    {
        HotkeyModifiers(0)
    }

    /// The set holding Alt alone.
    pub fn alt() -> (modifiers: Self)
        ensures
            modifiers.mask() == MOD_ALT,
    {
        HotkeyModifiers(MOD_ALT)
    }

    /// The set holding Ctrl alone.
    pub fn control() -> (modifiers: Self)
        ensures
            modifiers.mask() == MOD_CONTROL,
    {
        HotkeyModifiers(MOD_CONTROL)
    }

    /// The set holding Shift alone.
    pub fn shift() -> (modifiers: Self)
        ensures
            modifiers.mask() == MOD_SHIFT,
    {
        HotkeyModifiers(MOD_SHIFT)
    }

    /// The set holding the Windows key alone.
    pub fn win() -> (modifiers: Self)
        ensures
            modifiers.mask() == MOD_WIN,
    {
        HotkeyModifiers(MOD_WIN)
    }

    /// The flags this set holds, as `RegisterHotKey` takes them.
    pub fn bits(self) -> (bits: u32)
        ensures
            bits == self.mask(),
    {
        self.0
    }

    /// The set holding the modifiers of both sets.
    pub fn union(self, other: Self) -> (combined: Self)
        ensures
            combined.mask() == self.mask() | other.mask(),
    {
        HotkeyModifiers(self.0 | other.0)
    }
}

impl Default for HotkeyModifiers {
    fn default() -> (modifiers: Self)
        ensures
            modifiers.mask() == 0,
    {
        HotkeyModifiers::empty()
    }
}

impl core::ops::BitOr for HotkeyModifiers {
    type Output = Self;

    fn bitor(self, rhs: Self) -> Self {
        self.union(rhs)
    }
}

impl vstd::std_specs::ops::BitOrSpecImpl for HotkeyModifiers {
    open spec fn obeys_bitor_spec() -> bool {
        true
    }

    open spec fn bitor_req(self, rhs: Self) -> bool {
        true
    }

    closed spec fn bitor_spec(self, rhs: Self) -> Self {
        HotkeyModifiers(self.0 | rhs.0)
    }
}

/// The Windows flag of a shared hotkey modifier.
pub open spec fn modifier_flag(modifier: HotkeyModifier) -> u32 {
    match modifier {
        HotkeyModifier::Control => MOD_CONTROL,
        HotkeyModifier::Alt => MOD_ALT,
        HotkeyModifier::Shift => MOD_SHIFT,
        HotkeyModifier::Win => MOD_WIN,
    }
}

/// The flags of a list of modifiers, combined.
pub open spec fn modifier_flags(modifiers: Seq<HotkeyModifier>) -> u32
    decreases modifiers.len(),
{
    if modifiers.len() == 0 {
        0
    } else {
        modifier_flags(modifiers.drop_last()) | modifier_flag(modifiers.last())
    }
}

/// The Windows virtual-key code of a shared hotkey base key.
pub open spec fn key_code(key: HotkeyKey) -> u32 {
    match key {
        HotkeyKey::Escape => 0x1B,
        HotkeyKey::F1 => 0x70,
        HotkeyKey::F2 => 0x71,
        HotkeyKey::F3 => 0x72,
        HotkeyKey::F4 => 0x73,
        HotkeyKey::F5 => 0x74,
        HotkeyKey::F6 => 0x75,
        HotkeyKey::F7 => 0x76,
        HotkeyKey::F8 => 0x77,
        HotkeyKey::F9 => 0x78,
        HotkeyKey::F10 => 0x79,
        HotkeyKey::F11 => 0x7A,
        HotkeyKey::F12 => 0x7B,
    }
}

/// Each base key registers under the Windows virtual-key code of the key it
/// names: `Escape` under `VK_ESCAPE` (`0x1B`), and the function key `F<n>` under
/// `VK_F1 + n - 1` (`0x70` for `F1`), read off the key's display name; so no
/// two keys share a code.
pub proof fn lemma_key_codes_follow_key_names(key: HotkeyKey, other: HotkeyKey)
    ensures
        key == HotkeyKey::Escape ==> key_code(key) == 0x1B && key_display_name(key) == "Escape"@,
        key != HotkeyKey::Escape ==> 0x70 <= key_code(key) <= 0x7B && key_display_name(key) == "F"@
            + decimal_text((key_code(key) - 0x6F) as nat),
        key_code(key) == key_code(other) ==> key == other,
{
    reveal_strlit("Escape");
    reveal_strlit("F");
    reveal_strlit("F1");
    reveal_strlit("F2");
    reveal_strlit("F3");
    reveal_strlit("F4");
    reveal_strlit("F5");
    reveal_strlit("F6");
    reveal_strlit("F7");
    reveal_strlit("F8");
    reveal_strlit("F9");
    reveal_strlit("F10");
    reveal_strlit("F11");
    reveal_strlit("F12");
    if key != HotkeyKey::Escape {
        let number = (key_code(key) - 0x6F) as nat;
        if number < 10 {
            assert(decimal_text(number) == seq![digit_char(number)]);
        } else {
            assert(decimal_text(number / 10) == seq![digit_char(1)]);
            assert(decimal_text(number) == seq![digit_char(1), digit_char((number % 10) as nat)]);
        }
        assert(key_display_name(key) =~= "F"@ + decimal_text(number));
    }
}

/// Each modifier registers under its own Windows modifier flag (`MOD_CONTROL`,
/// `MOD_ALT`, `MOD_SHIFT`, `MOD_WIN`), a single bit that no other modifier uses.
pub proof fn lemma_modifier_flags_are_distinct_bits(modifier: HotkeyModifier, other: HotkeyModifier)
    ensures
        modifier == HotkeyModifier::Control ==> modifier_flag(modifier) == 0x0002,
        modifier == HotkeyModifier::Alt ==> modifier_flag(modifier) == 0x0001,
        modifier == HotkeyModifier::Shift ==> modifier_flag(modifier) == 0x0004,
        modifier == HotkeyModifier::Win ==> modifier_flag(modifier) == 0x0008,
        modifier != other ==> modifier_flag(modifier) & modifier_flag(other) == 0,
{
    assert((0x0002u32 & 0x0001u32) == 0 && (0x0002u32 & 0x0004u32) == 0 && (0x0002u32 & 0x0008u32)
        == 0 && (0x0001u32 & 0x0004u32) == 0 && (0x0001u32 & 0x0008u32) == 0 && (0x0004u32
        & 0x0008u32) == 0 && (0x0001u32 & 0x0002u32) == 0 && (0x0004u32 & 0x0002u32) == 0
        && (0x0008u32 & 0x0002u32) == 0 && (0x0004u32 & 0x0001u32) == 0 && (0x0008u32 & 0x0001u32)
        == 0 && (0x0008u32 & 0x0004u32) == 0) by (bit_vector);
}

/// Maps a shared hotkey modifier to its Windows flag.
pub fn hotkey_modifier_flags(modifier: HotkeyModifier) -> (modifiers: HotkeyModifiers)
    ensures
        modifiers.mask() == modifier_flag(modifier),
{
    match modifier {
        HotkeyModifier::Control => HotkeyModifiers::control(),
        HotkeyModifier::Alt => HotkeyModifiers::alt(),
        HotkeyModifier::Shift => HotkeyModifiers::shift(),
        HotkeyModifier::Win => HotkeyModifiers::win(),
    }
}

/// Maps a shared hotkey base key to its Windows virtual-key code.
pub fn hotkey_virtual_key_code(key: HotkeyKey) -> (code: u32)
    ensures
        code == key_code(key),
{
    match key {
        HotkeyKey::Escape => 0x1B,
        HotkeyKey::F1 => 0x70,
        HotkeyKey::F2 => 0x71,
        HotkeyKey::F3 => 0x72,
        HotkeyKey::F4 => 0x73,
        HotkeyKey::F5 => 0x74,
        HotkeyKey::F6 => 0x75,
        HotkeyKey::F7 => 0x76,
        HotkeyKey::F8 => 0x77,
        HotkeyKey::F9 => 0x78,
        HotkeyKey::F10 => 0x79,
        HotkeyKey::F11 => 0x7A,
        HotkeyKey::F12 => 0x7B,
    }
}

/// A single global hotkey registration handled by the Win32 backend.
#[derive(Debug, Clone, Copy, PartialEq, Eq, Structural)]
pub struct HotkeyRegistration {
    identifier: i32,
    modifiers: HotkeyModifiers,
    virtual_key_code: u32,
    suppress_auto_repeat: bool,
}

/// The text that describes a registration in an error message.
pub open spec fn registration_description(mask: u32, virtual_key_code: u32, suppress: bool) -> Seq<
    char,
> {
    "modifiers=0x"@ + hex_text(mask as nat) + ", vk=0x"@ + hex_text(virtual_key_code as nat)
        + ", suppress_auto_repeat="@ + bool_text(suppress)
}

impl HotkeyRegistration {
    pub closed spec fn spec_identifier(self) -> i32 {
        self.identifier
    }

    pub closed spec fn spec_modifiers(self) -> HotkeyModifiers {
        self.modifiers
    }

    pub closed spec fn spec_virtual_key_code(self) -> u32 {
        self.virtual_key_code
    }

    pub closed spec fn spec_suppresses_auto_repeat(self) -> bool {
        self.suppress_auto_repeat
    }

    /// Creates a new global hotkey registration that suppresses auto-repeat.
    pub fn new(identifier: i32, modifiers: HotkeyModifiers, virtual_key_code: u32) -> (registration: Self)
        ensures
            registration.spec_identifier() == identifier,
            registration.spec_modifiers() == modifiers,
            registration.spec_virtual_key_code() == virtual_key_code,
            registration.spec_suppresses_auto_repeat(),
    {
        HotkeyRegistration { identifier, modifiers, virtual_key_code, suppress_auto_repeat: true }
    }

    /// Allows a held key to retrigger the hotkey.
    pub fn with_auto_repeat_enabled(self) -> (registration: Self)
        ensures
            registration.spec_identifier() == self.spec_identifier(),
            registration.spec_modifiers() == self.spec_modifiers(),
            registration.spec_virtual_key_code() == self.spec_virtual_key_code(),
            !registration.spec_suppresses_auto_repeat(),
    {
        HotkeyRegistration { suppress_auto_repeat: false, ..self }
    }

    /// Returns the application-defined identifier for this registration.
    pub fn identifier(self) -> (identifier: i32)
        ensures
            identifier == self.spec_identifier(),
    {
        self.identifier
    }

    /// Returns the modifier set used to register this hotkey.
    pub fn modifiers(self) -> (modifiers: HotkeyModifiers)
        ensures
            modifiers == self.spec_modifiers(),
    {
        self.modifiers
    }

    /// Returns the Windows virtual-key code for this hotkey.
    pub fn virtual_key_code(self) -> (code: u32)
        ensures
            code == self.spec_virtual_key_code(),
    {
        self.virtual_key_code
    }

    /// Reports whether repeated keydown messages are suppressed.
    pub fn suppresses_auto_repeat(self) -> (suppressed: bool)
        ensures
            suppressed == self.spec_suppresses_auto_repeat(),
    {
        self.suppress_auto_repeat
    }

    /// Creates a Windows hotkey registration from the shared hotkey binding model.
    pub fn from_binding(identifier: i32, binding: &HotkeyBinding) -> (registration: Self)
        ensures
            registration.spec_identifier() == identifier,
            registration.spec_modifiers().mask() == modifier_flags(binding@.0),
            registration.spec_virtual_key_code() == key_code(binding@.1),
            registration.spec_suppresses_auto_repeat(),
    {
        let modifiers = binding.modifiers();
        let mut combined = HotkeyModifiers::empty();
        let mut index: usize = 0;
        while index < modifiers.len()
            invariant
                index <= modifiers.len(),
                modifiers@ == binding@.0,
                combined.mask() == modifier_flags(modifiers@.subrange(0, index as int)),
            decreases modifiers.len() - index,
        {
            combined = combined.union(hotkey_modifier_flags(modifiers[index]));
            let ghost prefix = modifiers@.subrange(0, index + 1);
            assert(prefix.drop_last() =~= modifiers@.subrange(0, index as int));
            index += 1;
        }
        assert(modifiers@.subrange(0, modifiers.len() as int) =~= modifiers@);
        HotkeyRegistration::new(identifier, combined, hotkey_virtual_key_code(binding.key()))
    }

    /// The flags passed to `RegisterHotKey`: the modifiers, and `MOD_NOREPEAT`
    /// when auto-repeat is suppressed.
    pub fn registration_flags(self) -> (flags: u32)
        ensures
            flags == self.spec_modifiers().mask() | (if self.spec_suppresses_auto_repeat() {
                MOD_NOREPEAT
            } else {
                0u32
            }),
    {
        let extra: u32 = if self.suppress_auto_repeat {
            MOD_NOREPEAT
        } else {
            0
        };
        self.modifiers.bits() | extra
    }

    /// Describes the registration for error messages.
    pub fn description(self) -> (text: String)
        ensures
            text@ == registration_description(
                self.spec_modifiers().mask(),
                self.spec_virtual_key_code(),
                self.spec_suppresses_auto_repeat(),
            ),
    {
        let mut text = String::new();
        push_str(&mut text, "modifiers=0x");
        let mask_text = hex_string(self.modifiers.bits() as u64);
        push_str(&mut text, mask_text.as_str());
        push_str(&mut text, ", vk=0x");
        let key_text = hex_string(self.virtual_key_code as u64);
        push_str(&mut text, key_text.as_str());
        push_str(&mut text, ", suppress_auto_repeat=");
        if self.suppress_auto_repeat {
            push_str(&mut text, "true");
        } else {
            push_str(&mut text, "false");
        }
        assert(text@ =~= registration_description(
            self.modifiers.mask(),
            self.virtual_key_code,
            self.suppress_auto_repeat,
        ));
        text
    }
}

/// A hotkey activation reported by the Win32 backend.
#[derive(Debug, Clone, Copy, PartialEq, Eq, Structural)]
pub struct HotkeyActivation {
    identifier: i32,
}

impl HotkeyActivation {
    pub closed spec fn spec_identifier(self) -> i32 {
        self.identifier
    }

    /// An activation of the hotkey registered under `identifier`.
    pub fn from_identifier(identifier: i32) -> (activation: Self)
        ensures
            activation.spec_identifier() == identifier,
    {
        HotkeyActivation { identifier }
    }

    /// Returns the identifier of the hotkey that fired.
    pub fn identifier(self) -> (identifier: i32)
        ensures
            identifier == self.spec_identifier(),
    {
        self.identifier
    }
}

/// The registration at `index` uses an identifier that an earlier one uses.
pub open spec fn identifier_repeats(registrations: Seq<HotkeyRegistration>, index: int) -> bool {
    exists|earlier: int|
        0 <= earlier < index && (#[trigger] registrations[earlier]).spec_identifier()
            == registrations[index].spec_identifier()
}

/// `index` is the first registration whose identifier an earlier one uses.
pub open spec fn is_first_repeated_identifier(registrations: Seq<HotkeyRegistration>, index: int) -> bool {
    &&& 0 <= index < registrations.len()
    &&& identifier_repeats(registrations, index)
    &&& forall|other: int| 0 <= other < index ==> !identifier_repeats(registrations, other)
}

/// The outcome of validating a list of registrations: it must not be empty, and
/// no identifier may be used twice.
pub open spec fn registrations_outcome(registrations: Seq<HotkeyRegistration>) -> Result<
    (),
    WindowsBackendError,
> {
    if registrations.len() == 0 {
        Err(WindowsBackendError::NoHotkeyRegistrations)
    } else if exists|index: int| is_first_repeated_identifier(registrations, index) {
        Err(
            WindowsBackendError::DuplicateHotkeyIdentifier {
                identifier: registrations[choose|index: int|
                    is_first_repeated_identifier(registrations, index)].spec_identifier(),
            },
        )
    } else {
        Ok(())
    }
}

proof fn lemma_first_repeated_identifier_is_unique(registrations: Seq<HotkeyRegistration>, index: int)
    requires
        is_first_repeated_identifier(registrations, index),
    ensures
        (choose|other: int| is_first_repeated_identifier(registrations, other)) == index,
{
    let other = choose|other: int| is_first_repeated_identifier(registrations, other);
    assert(is_first_repeated_identifier(registrations, other));
    if other < index {
        assert(!identifier_repeats(registrations, other));
    } else if index < other {
        assert(!identifier_repeats(registrations, index));
    }
}

/// Checks that a list of registrations is not empty and uses each identifier
/// once, reporting the first identifier used again.
pub fn validate_hotkey_registrations(registrations: &[HotkeyRegistration]) -> (result: Result<
    (),
    WindowsBackendError,
>)
    ensures
        result == registrations_outcome(registrations@),
{
    if registrations.len() == 0 {
        return Err(WindowsBackendError::NoHotkeyRegistrations);
    }
    let mut index: usize = 0;
    while index < registrations.len()
        invariant
            index <= registrations.len(),
            forall|other: int| 0 <= other < index ==> !identifier_repeats(registrations@, other),
        decreases registrations.len() - index,
    {
        let identifier = registrations[index].identifier;
        let mut earlier: usize = 0;
        while earlier < index
            invariant
                earlier <= index < registrations.len(),
                identifier == registrations@[index as int].spec_identifier(),
                forall|other: int| 0 <= other < index ==> !identifier_repeats(registrations@, other),
                forall|j: int|
                    0 <= j < earlier ==> (#[trigger] registrations@[j]).spec_identifier()
                        != identifier,
            decreases index - earlier,
        {
            if registrations[earlier].identifier == identifier {
                proof {
                    assert(identifier_repeats(registrations@, index as int));
                    assert(is_first_repeated_identifier(registrations@, index as int));
                    lemma_first_repeated_identifier_is_unique(registrations@, index as int);
                }
                return Err(WindowsBackendError::DuplicateHotkeyIdentifier { identifier });
            }
            earlier += 1;
        }
        index += 1;
    }
    proof {
        if exists|index: int| is_first_repeated_identifier(registrations@, index) {
            let found = choose|index: int| is_first_repeated_identifier(registrations@, index);
            assert(!identifier_repeats(registrations@, found));
        }
    }
    Ok(())
}

/// The result of waiting for a hotkey-controlled action boundary.
#[derive(Debug, Clone, Copy, PartialEq, Eq, Structural)]
pub enum HotkeyWaitOutcome {
    Activated,
    Cancelled,
}

/// The virtual keys that must all be up before a chord counts as released:
/// each modifier's keys (both Windows keys for Win), then the base key.
pub open spec fn modifier_virtual_keys(modifier: HotkeyModifier) -> Seq<i32> {
    match modifier {
        HotkeyModifier::Control => seq![VK_CONTROL],
        HotkeyModifier::Alt => seq![VK_MENU],
        HotkeyModifier::Shift => seq![VK_SHIFT],
        HotkeyModifier::Win => seq![VK_LWIN, VK_RWIN],
    }
}

/// The virtual keys of a list of modifiers, in order.
pub open spec fn modifiers_virtual_keys(modifiers: Seq<HotkeyModifier>) -> Seq<i32>
    decreases modifiers.len(),
{
    if modifiers.len() == 0 {
        Seq::empty()
    } else {
        modifiers_virtual_keys(modifiers.drop_last()) + modifier_virtual_keys(modifiers.last())
    }
}

/// The virtual keys of a whole chord: its modifiers' keys, then its base key.
pub open spec fn chord_virtual_keys(modifiers: Seq<HotkeyModifier>, key: HotkeyKey) -> Seq<i32> {
    modifiers_virtual_keys(modifiers).push(key_code(key) as i32)
}

/// Each modifier is watched through the Windows virtual keys that report it:
/// `VK_CONTROL` (`0x11`), `VK_MENU` (`0x12`) for Alt, `VK_SHIFT` (`0x10`), and
/// both Windows keys (`0x5B`, `0x5C`).
pub proof fn lemma_modifier_virtual_keys()
    ensures
        modifier_virtual_keys(HotkeyModifier::Control) == seq![0x11i32],
        modifier_virtual_keys(HotkeyModifier::Alt) == seq![0x12i32],
        modifier_virtual_keys(HotkeyModifier::Shift) == seq![0x10i32],
        modifier_virtual_keys(HotkeyModifier::Win) == seq![0x5Bi32, 0x5Ci32],
{
}

/// A chord counts as released only when every key it holds is up: its keys
/// include every virtual key of every one of its modifiers, and end with the
/// very code the base key is registered under.
pub proof fn lemma_release_keys_cover_the_chord(modifiers: Seq<HotkeyModifier>, key: HotkeyKey)
    ensures
        chord_virtual_keys(modifiers, key).last() == key_code(key) as i32,
        forall|i: int, j: int|
            0 <= i < modifiers.len() && 0 <= j < modifier_virtual_keys(modifiers[i]).len()
                ==> chord_virtual_keys(modifiers, key).contains(
                #[trigger] modifier_virtual_keys(modifiers[i])[j],
            ),
    decreases modifiers.len(),
{
    let keys = chord_virtual_keys(modifiers, key);
    if modifiers.len() > 0 {
        let shorter = modifiers.drop_last();
        lemma_release_keys_cover_the_chord(shorter, key);
        let before = modifiers_virtual_keys(shorter);
        let last_keys = modifier_virtual_keys(modifiers.last());
        assert(modifiers_virtual_keys(modifiers) == before + last_keys);
        assert forall|i: int, j: int|
            0 <= i < modifiers.len() && 0 <= j < modifier_virtual_keys(modifiers[i]).len()
                implies keys.contains(#[trigger] modifier_virtual_keys(modifiers[i])[j]) by {
            let wanted = modifier_virtual_keys(modifiers[i])[j];
            if i < shorter.len() {
                assert(shorter[i] == modifiers[i]);
                assert(chord_virtual_keys(shorter, key).contains(wanted));
                let p = choose|p: int|
                    0 <= p < chord_virtual_keys(shorter, key).len() && chord_virtual_keys(
                        shorter,
                        key,
                    )[p] == wanted;
                assert(p < before.len()) by {
                    assert(wanted != key_code(key) as i32);
                }
                assert(keys[p] == wanted);
            } else {
                assert(keys[before.len() + j] == wanted);
            }
        }
    }
}

/// Lists the virtual keys of a binding that must be up before it counts as released.
pub fn binding_virtual_keys(binding: &HotkeyBinding) -> (keys: Vec<i32>)
    ensures
        keys@ == chord_virtual_keys(binding@.0, binding@.1),
{
    let modifiers = binding.modifiers();
    let mut keys: Vec<i32> = Vec::new();
    let mut index: usize = 0;
    while index < modifiers.len()
        invariant
            index <= modifiers.len(),
            modifiers@ == binding@.0,
            keys@ == modifiers_virtual_keys(modifiers@.subrange(0, index as int)),
        decreases modifiers.len() - index,
    {
        let ghost before = keys@;
        match modifiers[index] {
            HotkeyModifier::Control => keys.push(VK_CONTROL),
            HotkeyModifier::Alt => keys.push(VK_MENU),
            HotkeyModifier::Shift => keys.push(VK_SHIFT),
            HotkeyModifier::Win => {
                keys.push(VK_LWIN);
                keys.push(VK_RWIN);
            },
        }
        let ghost prefix = modifiers@.subrange(0, index + 1);
        assert(prefix.drop_last() =~= modifiers@.subrange(0, index as int));
        assert(keys@ =~= before + modifier_virtual_keys(modifiers@[index as int]));
        index += 1;
    }
    assert(modifiers@.subrange(0, modifiers.len() as int) =~= modifiers@);
    let code = hotkey_virtual_key_code(binding.key());
    keys.push(code as i32);
    keys
}

/// One poll while waiting for a chord to be released: shutdown cancels the wait,
/// a chord with none of its keys down has been released, and otherwise the wait
/// goes on (`None`).
pub fn release_wait_step(stop_requested: bool, keys_down: &[bool]) -> (step: Option<
    HotkeyWaitOutcome,
>)
    ensures
        stop_requested ==> step == Some(HotkeyWaitOutcome::Cancelled),
        !stop_requested ==> (step == Some(HotkeyWaitOutcome::Activated) <==> !keys_down@.contains(
            true,
        )),
        !stop_requested ==> (step is None <==> keys_down@.contains(true)),
{
    if stop_requested {
        return Some(HotkeyWaitOutcome::Cancelled);
    }
    let mut index: usize = 0;
    while index < keys_down.len()
        invariant
            index <= keys_down.len(),
            !stop_requested,
            forall|j: int| 0 <= j < index ==> !keys_down@[j],
        decreases keys_down.len() - index,
    {
        if keys_down[index] {
            assert(keys_down@[index as int]);
            return None;
        }
        index += 1;
    }
    Some(HotkeyWaitOutcome::Activated)
}

/// What a wait for a single binding reports once the listener returns: an
/// activation means the hotkey fired, none means shutdown was requested.
pub fn binding_wait_outcome(activation: Option<HotkeyActivation>) -> (outcome: HotkeyWaitOutcome)
    ensures
        outcome == (if activation is Some {
            HotkeyWaitOutcome::Activated
        } else {
            HotkeyWaitOutcome::Cancelled
        }),
{
    match activation {
        Some(_) => HotkeyWaitOutcome::Activated,
        None => HotkeyWaitOutcome::Cancelled,
    }
}

/// How a wait for a single binding begins: finished at once, or waiting for
/// the registration to fire.
#[derive(Debug, Clone, Copy, PartialEq, Eq, Structural)]
pub enum HotkeyWaitStep {
    Finished(HotkeyWaitOutcome),
    AwaitActivation(HotkeyRegistration),
}

/// Begins waiting for `binding` under `identifier`: a stop that was already
/// requested cancels the wait before anything is registered; otherwise the
/// wait is for the binding's registration to fire.
pub fn wait_for_hotkey_binding(
    binding: &HotkeyBinding,
    identifier: i32,
    stop_requested: bool,
) -> (step: HotkeyWaitStep)
    ensures
        stop_requested ==> step == HotkeyWaitStep::Finished(HotkeyWaitOutcome::Cancelled),
        !stop_requested ==> (step matches HotkeyWaitStep::AwaitActivation(registration)
            && registration.spec_identifier() == identifier
            && registration.spec_modifiers().mask() == modifier_flags(binding@.0)
            && registration.spec_virtual_key_code() == key_code(binding@.1)
            && registration.spec_suppresses_auto_repeat()),
{
    if stop_requested {
        HotkeyWaitStep::Finished(HotkeyWaitOutcome::Cancelled)
    } else {
        HotkeyWaitStep::AwaitActivation(HotkeyRegistration::from_binding(identifier, binding))
    }
}

} // verus!
