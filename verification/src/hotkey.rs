use vstd::prelude::*;

use crate::text::{
    lemma_eq_ignore_case_lowercase, lemma_split_append_plain, lemma_split_lowercase,
    lemma_trim_lowercase, lemma_trim_unpadded, ascii_lower, ascii_lowercase, copy_range, eq_ignore_ascii_case, is_unicode_whitespace, matches_ignore_ascii_case, push_str, split_at_char,
    split_chars, string_from_chars, trim, trimmed_bounds,
};

verus! {

/// A platform-agnostic hotkey modifier.
#[derive(Debug, Clone, Copy, PartialEq, Eq, PartialOrd, Ord, Hash, Structural)]
pub enum HotkeyModifier {
    Control,
    Alt,
    Shift,
    Win,
}

pub open spec fn modifier_display_name(modifier: HotkeyModifier) -> Seq<char> {
    match modifier {
        HotkeyModifier::Control => "Ctrl"@,
        HotkeyModifier::Alt => "Alt"@,
        HotkeyModifier::Shift => "Shift"@,
        HotkeyModifier::Win => "Win"@,
    }
}

pub open spec fn modifier_canonical_token(modifier: HotkeyModifier) -> Seq<char> {
    match modifier {
        HotkeyModifier::Control => "ctrl"@,
        HotkeyModifier::Alt => "alt"@,
        HotkeyModifier::Shift => "shift"@,
        HotkeyModifier::Win => "win"@,
    }
}

pub open spec fn modifier_rank(modifier: HotkeyModifier) -> u8 {
    match modifier {
        HotkeyModifier::Control => 0,
        HotkeyModifier::Alt => 1,
        HotkeyModifier::Shift => 2,
        HotkeyModifier::Win => 3,
    }
}

/// The modifier a token names, ignoring the case of ASCII letters.
pub open spec fn modifier_for_token(token: Seq<char>) -> Option<HotkeyModifier> {
    if eq_ignore_ascii_case(token, "ctrl"@) || eq_ignore_ascii_case(token, "control"@) {
        Some(HotkeyModifier::Control)
    } else if eq_ignore_ascii_case(token, "alt"@) {
        Some(HotkeyModifier::Alt)
    } else if eq_ignore_ascii_case(token, "shift"@) {
        Some(HotkeyModifier::Shift)
    } else if eq_ignore_ascii_case(token, "win"@) || eq_ignore_ascii_case(token, "windows"@) {
        Some(HotkeyModifier::Win)
    } else {
        None
    }
}

impl HotkeyModifier {
    /// Returns the user-facing name of this modifier.
    pub fn display_name(self) -> (name: &'static str)
        ensures
            name@ == modifier_display_name(self),
    {
        match self {
            HotkeyModifier::Control => "Ctrl",
            HotkeyModifier::Alt => "Alt",
            HotkeyModifier::Shift => "Shift",
            HotkeyModifier::Win => "Win",
        }
    }

    /// The modifier's name, as its `Display` form writes it.
    pub fn to_string(&self) -> (text: String)
        ensures
            text@ == modifier_display_name(*self),
    {
        let mut text = String::new();
        push_str(&mut text, self.display_name());
        text
    }

    fn canonical_token(self) -> (token: &'static str)
        ensures
            token@ == modifier_canonical_token(self),
    {
        match self {
            HotkeyModifier::Control => "ctrl",
            HotkeyModifier::Alt => "alt",
            HotkeyModifier::Shift => "shift",
            HotkeyModifier::Win => "win",
        }
    }

    fn sort_rank(self) -> (rank: u8)
        ensures
            rank == modifier_rank(self),
    {
        match self {
            HotkeyModifier::Control => 0,
            HotkeyModifier::Alt => 1,
            HotkeyModifier::Shift => 2,
            HotkeyModifier::Win => 3,
        }
    }

    pub(crate) fn parse_token(token: &[char]) -> (modifier: Option<Self>)
        ensures
            modifier == modifier_for_token(token@),
    {
        if matches_ignore_ascii_case(token, "ctrl") || matches_ignore_ascii_case(token, "control") {
            Some(HotkeyModifier::Control)
        } else if matches_ignore_ascii_case(token, "alt") {
            Some(HotkeyModifier::Alt)
        } else if matches_ignore_ascii_case(token, "shift") {
            Some(HotkeyModifier::Shift)
        } else if matches_ignore_ascii_case(token, "win") || matches_ignore_ascii_case(
            token,
            "windows",
        ) {
            Some(HotkeyModifier::Win)
        } else {
            None
        }
    }
}

/// A platform-agnostic hotkey base key.
#[derive(Debug, Clone, Copy, PartialEq, Eq, PartialOrd, Ord, Hash, Structural)]
pub enum HotkeyKey {
    Escape,
    F1,
    F2,
    F3,
    F4,
    F5,
    F6,
    F7,
    F8,
    F9,
    F10,
    F11,
    F12,
}

pub open spec fn key_display_name(key: HotkeyKey) -> Seq<char> {
    match key {
        HotkeyKey::Escape => "Escape"@,
        HotkeyKey::F1 => "F1"@,
        HotkeyKey::F2 => "F2"@,
        HotkeyKey::F3 => "F3"@,
        HotkeyKey::F4 => "F4"@,
        HotkeyKey::F5 => "F5"@,
        HotkeyKey::F6 => "F6"@,
        HotkeyKey::F7 => "F7"@,
        HotkeyKey::F8 => "F8"@,
        HotkeyKey::F9 => "F9"@,
        HotkeyKey::F10 => "F10"@,
        HotkeyKey::F11 => "F11"@,
        HotkeyKey::F12 => "F12"@,
    }
}

/// The base key a token names, ignoring the case of ASCII letters.
pub open spec fn key_for_token(token: Seq<char>) -> Option<HotkeyKey> {
    if eq_ignore_ascii_case(token, "esc"@) || eq_ignore_ascii_case(token, "escape"@) {
        Some(HotkeyKey::Escape)
    } else if eq_ignore_ascii_case(token, "f1"@) {
        Some(HotkeyKey::F1)
    } else if eq_ignore_ascii_case(token, "f2"@) {
        Some(HotkeyKey::F2)
    } else if eq_ignore_ascii_case(token, "f3"@) {
        Some(HotkeyKey::F3)
    } else if eq_ignore_ascii_case(token, "f4"@) {
        Some(HotkeyKey::F4)
    } else if eq_ignore_ascii_case(token, "f5"@) {
        Some(HotkeyKey::F5)
    } else if eq_ignore_ascii_case(token, "f6"@) {
        Some(HotkeyKey::F6)
    } else if eq_ignore_ascii_case(token, "f7"@) {
        Some(HotkeyKey::F7)
    } else if eq_ignore_ascii_case(token, "f8"@) {
        Some(HotkeyKey::F8)
    } else if eq_ignore_ascii_case(token, "f9"@) {
        Some(HotkeyKey::F9)
    } else if eq_ignore_ascii_case(token, "f10"@) {
        Some(HotkeyKey::F10)
    } else if eq_ignore_ascii_case(token, "f11"@) {
        Some(HotkeyKey::F11)
    } else if eq_ignore_ascii_case(token, "f12"@) {
        Some(HotkeyKey::F12)
    } else {
        None
    }
}

impl HotkeyKey {
    /// Returns the user-facing name of this hotkey key.
    pub fn display_name(self) -> (name: &'static str)
        ensures
            name@ == key_display_name(self),
    {
        match self {
            HotkeyKey::Escape => "Escape",
            HotkeyKey::F1 => "F1",
            HotkeyKey::F2 => "F2",
            HotkeyKey::F3 => "F3",
            HotkeyKey::F4 => "F4",
            HotkeyKey::F5 => "F5",
            HotkeyKey::F6 => "F6",
            HotkeyKey::F7 => "F7",
            HotkeyKey::F8 => "F8",
            HotkeyKey::F9 => "F9",
            HotkeyKey::F10 => "F10",
            HotkeyKey::F11 => "F11",
            HotkeyKey::F12 => "F12",
        }
    }

    /// The key's name, as its `Display` form writes it.
    pub fn to_string(&self) -> (text: String)
        ensures
            text@ == key_display_name(*self),
    {
        let mut text = String::new();
        push_str(&mut text, self.display_name());
        text
    }

    pub(crate) fn parse_token(token: &[char]) -> (key: Option<Self>)
        ensures
            key == key_for_token(token@),
    {
        if matches_ignore_ascii_case(token, "esc") || matches_ignore_ascii_case(token, "escape") {
            Some(HotkeyKey::Escape)
        } else if matches_ignore_ascii_case(token, "f1") {
            Some(HotkeyKey::F1)
        } else if matches_ignore_ascii_case(token, "f2") {
            Some(HotkeyKey::F2)
        } else if matches_ignore_ascii_case(token, "f3") {
            Some(HotkeyKey::F3)
        } else if matches_ignore_ascii_case(token, "f4") {
            Some(HotkeyKey::F4)
        } else if matches_ignore_ascii_case(token, "f5") {
            Some(HotkeyKey::F5)
        } else if matches_ignore_ascii_case(token, "f6") {
            Some(HotkeyKey::F6)
        } else if matches_ignore_ascii_case(token, "f7") {
            Some(HotkeyKey::F7)
        } else if matches_ignore_ascii_case(token, "f8") {
            Some(HotkeyKey::F8)
        } else if matches_ignore_ascii_case(token, "f9") {
            Some(HotkeyKey::F9)
        } else if matches_ignore_ascii_case(token, "f10") {
            Some(HotkeyKey::F10)
        } else if matches_ignore_ascii_case(token, "f11") {
            Some(HotkeyKey::F11)
        } else if matches_ignore_ascii_case(token, "f12") {
            Some(HotkeyKey::F12)
        } else {
            None
        }
    }
}

/// Errors produced while parsing or constructing a hotkey binding.
#[derive(Debug, Clone, PartialEq, Eq)]
pub enum HotkeyParseError {
    EmptySegment,
    DuplicateModifier { token: String },
    MultipleBaseKeys,
    UnsupportedToken { token: String },
    MissingModifier,
    MissingBaseKey,
}

/// The content of a hotkey parse error, with tokens as character sequences.
pub enum HotkeyParseErrorView {
    EmptySegment,
    DuplicateModifier(Seq<char>),
    MultipleBaseKeys,
    UnsupportedToken(Seq<char>),
    MissingModifier,
    MissingBaseKey,
}

impl View for HotkeyParseError {
    type V = HotkeyParseErrorView;

    open spec fn view(&self) -> HotkeyParseErrorView {
        match self {
            HotkeyParseError::EmptySegment => HotkeyParseErrorView::EmptySegment,
            HotkeyParseError::DuplicateModifier { token } => HotkeyParseErrorView::DuplicateModifier(
                token@,
            ),
            HotkeyParseError::MultipleBaseKeys => HotkeyParseErrorView::MultipleBaseKeys,
            HotkeyParseError::UnsupportedToken { token } => HotkeyParseErrorView::UnsupportedToken(
                token@,
            ),
            HotkeyParseError::MissingModifier => HotkeyParseErrorView::MissingModifier,
            HotkeyParseError::MissingBaseKey => HotkeyParseErrorView::MissingBaseKey,
        }
    }
}

/// The message that describes a hotkey parse error to a user.
pub open spec fn parse_error_text(error: HotkeyParseErrorView) -> Seq<char> {
    match error {
        HotkeyParseErrorView::EmptySegment => "hotkeys cannot contain empty segments"@,
        HotkeyParseErrorView::DuplicateModifier(token) => "hotkey modifier `"@ + token
            + "` was provided more than once"@,
        HotkeyParseErrorView::MultipleBaseKeys =>
            "hotkeys can only contain one base key such as escape or f1-f12"@,
        HotkeyParseErrorView::UnsupportedToken(token) => "unsupported hotkey token `"@ + token
            + "`; use modifiers like ctrl/alt/shift/win and keys like escape or f1-f12"@,
        HotkeyParseErrorView::MissingModifier =>
            "hotkeys require at least one modifier such as ctrl, alt, shift, or win"@,
        HotkeyParseErrorView::MissingBaseKey => "hotkeys require a base key such as escape or f1-f12"@,
    }
}

impl HotkeyParseError {
    /// The message that describes this error to a user.
    pub fn message(&self) -> (text: String)
        ensures
            text@ == parse_error_text(self@),
    {
        match self {
            HotkeyParseError::EmptySegment => "hotkeys cannot contain empty segments".to_owned(),
            HotkeyParseError::DuplicateModifier { token } => {
                let mut text = String::new();
                push_str(&mut text, "hotkey modifier `");
                push_str(&mut text, token.as_str());
                push_str(&mut text, "` was provided more than once");
                text
            },
            HotkeyParseError::MultipleBaseKeys => {
                "hotkeys can only contain one base key such as escape or f1-f12".to_owned()
            },
            HotkeyParseError::UnsupportedToken { token } => {
                let mut text = String::new();
                push_str(&mut text, "unsupported hotkey token `");
                push_str(&mut text, token.as_str());
                push_str(
                    &mut text,
                    "`; use modifiers like ctrl/alt/shift/win and keys like escape or f1-f12",
                );
                text
            },
            HotkeyParseError::MissingModifier => {
                "hotkeys require at least one modifier such as ctrl, alt, shift, or win".to_owned()
            },
            HotkeyParseError::MissingBaseKey => {
                "hotkeys require a base key such as escape or f1-f12".to_owned()
            },
        }
    }
}

/// The modifiers of `modifiers`, each once, in the canonical order
/// Ctrl, Alt, Shift, Win.
pub open spec fn canonical_modifier_order(modifiers: Seq<HotkeyModifier>) -> Seq<HotkeyModifier> {
    (if modifiers.contains(HotkeyModifier::Control) {
        seq![HotkeyModifier::Control]
    } else {
        Seq::empty()
    }) + (if modifiers.contains(HotkeyModifier::Alt) {
        seq![HotkeyModifier::Alt]
    } else {
        Seq::empty()
    }) + (if modifiers.contains(HotkeyModifier::Shift) {
        seq![HotkeyModifier::Shift]
    } else {
        Seq::empty()
    }) + (if modifiers.contains(HotkeyModifier::Win) {
        seq![HotkeyModifier::Win]
    } else {
        Seq::empty()
    })
}

/// `modifiers[index]` already occurs earlier in `modifiers`.
pub open spec fn repeats_earlier(modifiers: Seq<HotkeyModifier>, index: int) -> bool {
    exists|earlier: int| 0 <= earlier < index && modifiers[earlier] == modifiers[index]
}

/// `index` is the first position whose modifier occurs earlier in `modifiers`.
pub open spec fn is_first_repeat(modifiers: Seq<HotkeyModifier>, index: int) -> bool {
    &&& 0 <= index < modifiers.len()
    &&& repeats_earlier(modifiers, index)
    &&& forall|other: int| 0 <= other < index ==> !repeats_earlier(modifiers, other)
}

/// The outcome of building a binding from explicit modifiers and a key: the
/// modifiers in canonical order, or the first rule the modifiers break.
pub open spec fn binding_outcome(modifiers: Seq<HotkeyModifier>, key: HotkeyKey) -> Result<
    (Seq<HotkeyModifier>, HotkeyKey),
    HotkeyParseErrorView,
> {
    if modifiers.len() == 0 {
        Err(HotkeyParseErrorView::MissingModifier)
    } else if exists|index: int| is_first_repeat(modifiers, index) {
        Err(
            HotkeyParseErrorView::DuplicateModifier(
                modifier_canonical_token(
                    modifiers[choose|index: int| is_first_repeat(modifiers, index)],
                ),
            ),
        )
    } else {
        Ok((canonical_modifier_order(modifiers), key))
    }
}

/// The progress of parsing tokens left to right: the modifiers seen so far and
/// the base key, if one was seen.
pub type ParseProgress = Result<(Seq<HotkeyModifier>, Option<HotkeyKey>), HotkeyParseErrorView>;

/// Parses one more token.
pub open spec fn parse_step(
    modifiers: Seq<HotkeyModifier>,
    key: Option<HotkeyKey>,
    token: Seq<char>,
) -> ParseProgress {
    if token.len() == 0 {
        Err(HotkeyParseErrorView::EmptySegment)
    } else if modifier_for_token(token) is Some {
        let modifier = modifier_for_token(token)->0;
        if modifiers.contains(modifier) {
            Err(HotkeyParseErrorView::DuplicateModifier(token))
        } else {
            Ok((modifiers.push(modifier), key))
        }
    } else if key_for_token(token) is Some {
        if key is Some {
            Err(HotkeyParseErrorView::MultipleBaseKeys)
        } else {
            Ok((modifiers, key_for_token(token)))
        }
    } else {
        Err(HotkeyParseErrorView::UnsupportedToken(token))
    }
}

/// Parses a sequence of tokens left to right, stopping at the first error.
pub open spec fn parse_tokens(tokens: Seq<Seq<char>>) -> ParseProgress
    decreases tokens.len(),
{
    if tokens.len() == 0 {
        Ok((Seq::empty(), None))
    } else {
        match parse_tokens(tokens.drop_last()) {
            Err(error) => Err(error),
            Ok((modifiers, key)) => parse_step(modifiers, key, tokens.last()),
        }
    }
}

/// The trimmed `+`-separated tokens of a hotkey chord.
pub open spec fn chord_tokens(text: Seq<char>) -> Seq<Seq<char>> {
    split_at_char(text, '+').map_values(|segment: Seq<char>| trim(segment))
}

/// The outcome of parsing a hotkey chord such as `ctrl+shift+f9`.
pub open spec fn chord_outcome(text: Seq<char>) -> Result<
    (Seq<HotkeyModifier>, HotkeyKey),
    HotkeyParseErrorView,
> {
    match parse_tokens(chord_tokens(text)) {
        Err(error) => Err(error),
        Ok((modifiers, None)) => Err(HotkeyParseErrorView::MissingBaseKey),
        Ok((modifiers, Some(key))) => binding_outcome(modifiers, key),
    }
}

/// The text of a binding's modifiers, each followed by `+`.
pub open spec fn modifiers_text(modifiers: Seq<HotkeyModifier>) -> Seq<char>
    decreases modifiers.len(),
{
    if modifiers.len() == 0 {
        Seq::empty()
    } else {
        modifiers_text(modifiers.drop_last()) + modifier_display_name(modifiers.last()) + "+"@
    }
}

/// The user-facing text of a binding, such as `Ctrl+Shift+F9`.
pub open spec fn binding_text(modifiers: Seq<HotkeyModifier>, key: HotkeyKey) -> Seq<char> {
    modifiers_text(modifiers) + key_display_name(key)
}

/// The modifiers are non-empty and already in canonical order.
pub open spec fn well_formed_modifiers(modifiers: Seq<HotkeyModifier>) -> bool {
    modifiers.len() > 0 && modifiers == canonical_modifier_order(modifiers)
}

/// A parsed hotkey chord.
#[derive(Debug, PartialEq, Eq)]
pub struct HotkeyBinding {
    modifiers: Vec<HotkeyModifier>,
    key: HotkeyKey,
}

impl View for HotkeyBinding {
    type V = (Seq<HotkeyModifier>, HotkeyKey);

    closed spec fn view(&self) -> (Seq<HotkeyModifier>, HotkeyKey) {
        (self.modifiers@, self.key)
    }
}

pub open spec fn binding_result_view(result: Result<HotkeyBinding, HotkeyParseError>) -> Result<
    (Seq<HotkeyModifier>, HotkeyKey),
    HotkeyParseErrorView,
> {
    match result {
        Ok(binding) => Ok(binding@),
        Err(error) => Err(error@),
    }
}

fn contains_modifier(modifiers: &[HotkeyModifier], modifier: HotkeyModifier) -> (found: bool)
    ensures
        found == modifiers@.contains(modifier),
{
    let mut index: usize = 0;
    while index < modifiers.len()
        invariant
            index <= modifiers.len(),
            forall|i: int| 0 <= i < index ==> modifiers@[i] != modifier,
        decreases modifiers.len() - index,
    {
        if modifiers[index] == modifier {
            return true;
        }
        index += 1;
    }
    false
}

proof fn lemma_canonical_order_is_canonical(modifiers: Seq<HotkeyModifier>)
    ensures
        canonical_modifier_order(canonical_modifier_order(modifiers)) == canonical_modifier_order(
            modifiers,
        ),
        modifiers.len() > 0 ==> canonical_modifier_order(modifiers).len() > 0,
        forall|m: HotkeyModifier|
            canonical_modifier_order(modifiers).contains(m) == modifiers.contains(m),
{
    let sorted = canonical_modifier_order(modifiers);
    let c = if modifiers.contains(HotkeyModifier::Control) {
        seq![HotkeyModifier::Control]
    } else {
        Seq::empty()
    };
    let a = if modifiers.contains(HotkeyModifier::Alt) {
        seq![HotkeyModifier::Alt]
    } else {
        Seq::empty()
    };
    let s = if modifiers.contains(HotkeyModifier::Shift) {
        seq![HotkeyModifier::Shift]
    } else {
        Seq::empty()
    };
    let w = if modifiers.contains(HotkeyModifier::Win) {
        seq![HotkeyModifier::Win]
    } else {
        Seq::empty()
    };
    assert(sorted == c + a + s + w);
    assert forall|m: HotkeyModifier| sorted.contains(m) == modifiers.contains(m) by {
        if modifiers.contains(m) {
            let i = match m {
                HotkeyModifier::Control => 0,
                HotkeyModifier::Alt => c.len() as int,
                HotkeyModifier::Shift => (c.len() + a.len()) as int,
                HotkeyModifier::Win => (c.len() + a.len() + s.len()) as int,
            };
            assert(sorted[i] == m);
        }
        if sorted.contains(m) {
            let i = choose|i: int| 0 <= i < sorted.len() && sorted[i] == m;
            assert(sorted[i] == m);
        }
    }
    if modifiers.len() > 0 {
        let m = modifiers[0];
        assert(modifiers.contains(m));
        assert(sorted.contains(m));
    }
    assert(canonical_modifier_order(sorted) =~= sorted);
}

impl HotkeyBinding {
    #[verifier::type_invariant]
    closed spec fn well_formed(self) -> bool {
        well_formed_modifiers(self.modifiers@)
    }

    /// Creates a validated hotkey binding from explicit modifier and key values.
    ///
    /// Fails when no modifier is given or a modifier repeats; otherwise the
    /// binding holds the modifiers in canonical order.
    pub fn new(modifiers: Vec<HotkeyModifier>, key: HotkeyKey) -> (result: Result<
        Self,
        HotkeyParseError,
    >)
        ensures
            binding_result_view(result) == binding_outcome(modifiers@, key),
            result matches Ok(binding) ==> well_formed_modifiers(binding@.0),
    {
        if modifiers.len() == 0 {
            return Err(HotkeyParseError::MissingModifier);
        }
        let mut index: usize = 0;
        while index < modifiers.len()
            invariant
                index <= modifiers.len(),
                forall|other: int| 0 <= other < index ==> !repeats_earlier(modifiers@, other),
            decreases modifiers.len() - index,
        {
            let mut earlier: usize = 0;
            while earlier < index
                invariant
                    earlier <= index < modifiers.len(),
                    forall|other: int| 0 <= other < index ==> !repeats_earlier(modifiers@, other),
                    forall|e: int| 0 <= e < earlier ==> modifiers@[e] != modifiers@[index as int],
                decreases index - earlier,
            {
                if modifiers[earlier] == modifiers[index] {
                    proof {
                        assert(modifiers@[earlier as int] == modifiers@[index as int]);
                        assert(repeats_earlier(modifiers@, index as int));
                        assert(is_first_repeat(modifiers@, index as int));
                        let chosen = choose|i: int| is_first_repeat(modifiers@, i);
                        assert(chosen == index as int) by {
                            if chosen > index as int {
                                assert(!repeats_earlier(modifiers@, index as int));
                            }
                        }
                    }
                    let token = modifiers[index].canonical_token();
                    let mut text = String::new();
                    push_str(&mut text, token);
                    assert(text@ == token@);
                    return Err(HotkeyParseError::DuplicateModifier { token: text });
                }
                earlier += 1;
            }
            index += 1;
        }
        assert(!exists|i: int| is_first_repeat(modifiers@, i));
        let mut sorted: Vec<HotkeyModifier> = Vec::new();
        if contains_modifier(&modifiers, HotkeyModifier::Control) {
            sorted.push(HotkeyModifier::Control);
        }
        if contains_modifier(&modifiers, HotkeyModifier::Alt) {
            sorted.push(HotkeyModifier::Alt);
        }
        if contains_modifier(&modifiers, HotkeyModifier::Shift) {
            sorted.push(HotkeyModifier::Shift);
        }
        if contains_modifier(&modifiers, HotkeyModifier::Win) {
            sorted.push(HotkeyModifier::Win);
        }
        proof {
            assert(sorted@ =~= canonical_modifier_order(modifiers@));
            lemma_canonical_order_is_canonical(modifiers@);
        }
        Ok(HotkeyBinding { modifiers: sorted, key })
    }

    /// Returns a copy of this binding.
    pub fn duplicate(&self) -> (copy: Self)
        ensures
            copy@ == self@,
    {
        proof {
            use_type_invariant(self);
        }
        HotkeyBinding { modifiers: self.modifiers.clone(), key: self.key }
    }

    /// Reports whether two bindings hold the same modifiers and key.
    pub fn same_as(&self, other: &HotkeyBinding) -> (same: bool)
        ensures
            same == (self@ == other@),
    {
        if self.key != other.key || self.modifiers.len() != other.modifiers.len() {
            return false;
        }
        let mut index: usize = 0;
        while index < self.modifiers.len()
            invariant
                index <= self.modifiers.len(),
                self.modifiers.len() == other.modifiers.len(),
                forall|j: int| 0 <= j < index ==> self.modifiers@[j] == other.modifiers@[j],
            decreases self.modifiers.len() - index,
        {
            if self.modifiers[index] != other.modifiers[index] {
                return false;
            }
            index += 1;
        }
        assert(self.modifiers@ =~= other.modifiers@);
        true
    }

    /// Returns the modifiers that make up this hotkey binding.
    pub fn modifiers(&self) -> (modifiers: &[HotkeyModifier])
        ensures
            modifiers@ == self@.0,
            well_formed_modifiers(modifiers@),
    {
        proof {
            use_type_invariant(self);
        }
        self.modifiers.as_slice()
    }

    /// Returns the base key used by this hotkey binding.
    pub fn key(&self) -> (key: HotkeyKey)
        ensures
            key == self@.1,
    {
        self.key
    }

    /// The user-facing text of this binding, such as `Ctrl+Shift+F9`. The text
    /// parses back to this binding, and so does its lower-case form.
    pub fn to_string(&self) -> (text: String)
        ensures
            text@ == binding_text(self@.0, self@.1),
            chord_outcome(text@) == Ok::<(Seq<HotkeyModifier>, HotkeyKey), HotkeyParseErrorView>(
                self@,
            ),
            chord_outcome(ascii_lowercase(text@)) == Ok::<
                (Seq<HotkeyModifier>, HotkeyKey),
                HotkeyParseErrorView,
            >(self@),
    {
        proof {
            use_type_invariant(self);
            lemma_binding_text_round_trip(self.modifiers@, self.key);
            lemma_lowercase_binding_text_round_trip(self.modifiers@, self.key);
        }
        let mut text = String::new();
        let mut index: usize = 0;
        while index < self.modifiers.len()
            invariant
                index <= self.modifiers.len(),
                text@ == modifiers_text(self.modifiers@.subrange(0, index as int)),
            decreases self.modifiers.len() - index,
        {
            let ghost before = self.modifiers@.subrange(0, index as int);
            push_str(&mut text, self.modifiers[index].display_name());
            push_str(&mut text, "+");
            index += 1;
            proof {
                let after = self.modifiers@.subrange(0, index as int);
                assert(after.drop_last() =~= before);
            }
        }
        push_str(&mut text, self.key.display_name());
        assert(self.modifiers@.subrange(0, self.modifiers.len() as int) =~= self.modifiers@);
        text
    }

    /// Parses a `+`-separated chord such as `ctrl+shift+f9`: tokens are trimmed,
    /// matched without regard to ASCII case, and must name at least one modifier
    /// and exactly one base key.
    pub fn parse_text(text: &str) -> (result: Result<Self, HotkeyParseError>)
        ensures
            binding_result_view(result) == chord_outcome(text@),
    {
        let chars = crate::text::chars_of(text);
        let segments = split_chars(&chars, '+');
        let ghost tokens = chord_tokens(text@);
        let mut modifiers: Vec<HotkeyModifier> = Vec::new();
        let mut key: Option<HotkeyKey> = None;
        let mut index: usize = 0;
        assert(tokens.len() == segments@.len());
        while index < segments.len()
            invariant
                index <= segments.len(),
                tokens == chord_tokens(text@),
                tokens.len() == segments@.len(),
                forall|i: int|
                    0 <= i < segments@.len() ==> #[trigger] tokens[i] == trim(segments@[i]@),
                parse_tokens(tokens.subrange(0, index as int)) == Ok::<
                    (Seq<HotkeyModifier>, Option<HotkeyKey>),
                    HotkeyParseErrorView,
                >((modifiers@, key)),
            decreases segments.len() - index,
        {
            let segment = &segments[index];
            let (start, end) = trimmed_bounds(segment.as_slice());
            let token = copy_range(segment.as_slice(), start, end);
            let ghost prefix = tokens.subrange(0, index + 1);
            proof {
                assert(prefix.drop_last() =~= tokens.subrange(0, index as int));
                assert(token@ == tokens[index as int]);
            }
            if token.len() == 0 {
                proof {
                    lemma_parse_error_persists(tokens, index as int + 1);
                }
                return Err(HotkeyParseError::EmptySegment);
            }
            let parsed_modifier = HotkeyModifier::parse_token(token.as_slice());
            match parsed_modifier {
                Some(modifier) => {
                    if contains_modifier(modifiers.as_slice(), modifier) {
                        proof {
                            lemma_parse_error_persists(tokens, index as int + 1);
                        }
                        return Err(
                            HotkeyParseError::DuplicateModifier {
                                token: string_from_chars(token.as_slice()),
                            },
                        );
                    }
                    modifiers.push(modifier);
                },
                None => {
                    let parsed_key = HotkeyKey::parse_token(token.as_slice());
                    match parsed_key {
                        Some(base_key) => {
                            if key.is_some() {
                                proof {
                                    lemma_parse_error_persists(tokens, index as int + 1);
                                }
                                return Err(HotkeyParseError::MultipleBaseKeys);
                            }
                            key = Some(base_key);
                        },
                        None => {
                            proof {
                                lemma_parse_error_persists(tokens, index as int + 1);
                            }
                            return Err(
                                HotkeyParseError::UnsupportedToken {
                                    token: string_from_chars(token.as_slice()),
                                },
                            );
                        },
                    }
                },
            }
            index += 1;
        }
        assert(tokens.subrange(0, segments.len() as int) =~= tokens);
        match key {
            None => Err(HotkeyParseError::MissingBaseKey),
            Some(base_key) => HotkeyBinding::new(modifiers, base_key),
        }
    }
}

proof fn lemma_parse_error_persists(tokens: Seq<Seq<char>>, count: int)
    requires
        0 < count <= tokens.len(),
        parse_tokens(tokens.subrange(0, count)) is Err,
    ensures
        parse_tokens(tokens) == parse_tokens(tokens.subrange(0, count)),
    decreases tokens.len() - count,
{
    if count < tokens.len() {
        assert(tokens.subrange(0, count + 1).drop_last() =~= tokens.subrange(0, count));
        lemma_parse_error_persists(tokens, count + 1);
    } else {
        assert(tokens.subrange(0, count) =~= tokens);
    }
}

/// A token that is neither empty nor padded and holds no `+`.
pub open spec fn is_plain_token(token: Seq<char>) -> bool {
    &&& token.len() > 0
    &&& !is_unicode_whitespace(token[0])
    &&& !is_unicode_whitespace(token.last())
    &&& !token.contains('+')
}

proof fn lemma_key_token_initial(token: Seq<char>)
    requires
        key_for_token(token) is Some,
    ensures
        token.len() > 0,
        ascii_lower(token[0]) == 'e' || ascii_lower(token[0]) == 'f',
{
    reveal_strlit("esc");
    reveal_strlit("escape");
    reveal_strlit("f1");
    reveal_strlit("f2");
    reveal_strlit("f3");
    reveal_strlit("f4");
    reveal_strlit("f5");
    reveal_strlit("f6");
    reveal_strlit("f7");
    reveal_strlit("f8");
    reveal_strlit("f9");
    reveal_strlit("f10");
    reveal_strlit("f11");
    reveal_strlit("f12");
}

proof fn lemma_modifier_token_initial(token: Seq<char>)
    requires
        modifier_for_token(token) is Some,
    ensures
        token.len() > 0,
        ascii_lower(token[0]) == 'c' || ascii_lower(token[0]) == 'a' || ascii_lower(token[0])
            == 's' || ascii_lower(token[0]) == 'w',
{
    reveal_strlit("ctrl");
    reveal_strlit("control");
    reveal_strlit("alt");
    reveal_strlit("shift");
    reveal_strlit("win");
    reveal_strlit("windows");
}

pub(crate) proof fn lemma_modifier_name_parses(modifier: HotkeyModifier)
    ensures
        modifier_for_token(modifier_display_name(modifier)) == Some(modifier),
        key_for_token(modifier_display_name(modifier)) is None,
        is_plain_token(modifier_display_name(modifier)),
{
    reveal_strlit("Ctrl");
    reveal_strlit("Alt");
    reveal_strlit("Shift");
    reveal_strlit("Win");
    reveal_strlit("ctrl");
    reveal_strlit("control");
    reveal_strlit("alt");
    reveal_strlit("shift");
    reveal_strlit("win");
    reveal_strlit("windows");
    let name = modifier_display_name(modifier);
    match modifier {
        HotkeyModifier::Control => {
            assert(eq_ignore_ascii_case(name, "ctrl"@));
        },
        HotkeyModifier::Alt => {
            assert(ascii_lower(name[0]) != ascii_lower("ctrl"@[0]));
            assert(ascii_lower(name[0]) != ascii_lower("control"@[0]));
            assert(eq_ignore_ascii_case(name, "alt"@));
        },
        HotkeyModifier::Shift => {
            assert(ascii_lower(name[0]) != ascii_lower("ctrl"@[0]));
            assert(ascii_lower(name[0]) != ascii_lower("control"@[0]));
            assert(ascii_lower(name[0]) != ascii_lower("alt"@[0]));
            assert(eq_ignore_ascii_case(name, "shift"@));
        },
        HotkeyModifier::Win => {
            assert(ascii_lower(name[0]) != ascii_lower("ctrl"@[0]));
            assert(ascii_lower(name[0]) != ascii_lower("control"@[0]));
            assert(ascii_lower(name[0]) != ascii_lower("alt"@[0]));
            assert(ascii_lower(name[0]) != ascii_lower("shift"@[0]));
            assert(eq_ignore_ascii_case(name, "win"@));
        },
    }
    if key_for_token(name) is Some {
        lemma_key_token_initial(name);
    }
    assert(!name.contains('+'));
}

pub(crate) proof fn lemma_key_name_parses(key: HotkeyKey)
    ensures
        key_for_token(key_display_name(key)) == Some(key),
        modifier_for_token(key_display_name(key)) is None,
        is_plain_token(key_display_name(key)),
{
    reveal_strlit("Escape");
    reveal_strlit("F1");
    reveal_strlit("F2");
    reveal_strlit("F3");
    reveal_strlit("F4");
    reveal_strlit("F5");
    reveal_strlit("F6");
    reveal_strlit("F7");
    reveal_strlit("F8");
    reveal_strlit("F9");
    reveal_strlit("F10");
    reveal_strlit("F11");
    reveal_strlit("F12");
    reveal_strlit("esc");
    reveal_strlit("escape");
    reveal_strlit("f1");
    reveal_strlit("f2");
    reveal_strlit("f3");
    reveal_strlit("f4");
    reveal_strlit("f5");
    reveal_strlit("f6");
    reveal_strlit("f7");
    reveal_strlit("f8");
    reveal_strlit("f9");
    reveal_strlit("f10");
    reveal_strlit("f11");
    reveal_strlit("f12");
    let name = key_display_name(key);
    if modifier_for_token(name) is Some {
        lemma_modifier_token_initial(name);
    }
    assert(name[0] == 'E' || name[0] == 'F');
    assert(!name.contains('+'));
    match key {
        HotkeyKey::Escape => {
            assert(eq_ignore_ascii_case(name, "escape"@));
        },
        HotkeyKey::F1 => {
            assert(eq_ignore_ascii_case(name, "f1"@));
        },
        HotkeyKey::F2 => {
            assert(ascii_lower(name[1]) != ascii_lower("f1"@[1]));
            assert(eq_ignore_ascii_case(name, "f2"@));
        },
        HotkeyKey::F3 => {
            assert(ascii_lower(name[1]) != ascii_lower("f1"@[1]));
            assert(ascii_lower(name[1]) != ascii_lower("f2"@[1]));
            assert(eq_ignore_ascii_case(name, "f3"@));
        },
        HotkeyKey::F4 => {
            assert(ascii_lower(name[1]) != ascii_lower("f1"@[1]));
            assert(ascii_lower(name[1]) != ascii_lower("f2"@[1]));
            assert(ascii_lower(name[1]) != ascii_lower("f3"@[1]));
            assert(eq_ignore_ascii_case(name, "f4"@));
        },
        HotkeyKey::F5 => {
            assert(ascii_lower(name[1]) != ascii_lower("f1"@[1]));
            assert(ascii_lower(name[1]) != ascii_lower("f2"@[1]));
            assert(ascii_lower(name[1]) != ascii_lower("f3"@[1]));
            assert(ascii_lower(name[1]) != ascii_lower("f4"@[1]));
            assert(eq_ignore_ascii_case(name, "f5"@));
        },
        HotkeyKey::F6 => {
            assert(ascii_lower(name[1]) != ascii_lower("f1"@[1]));
            assert(ascii_lower(name[1]) != ascii_lower("f2"@[1]));
            assert(ascii_lower(name[1]) != ascii_lower("f3"@[1]));
            assert(ascii_lower(name[1]) != ascii_lower("f4"@[1]));
            assert(ascii_lower(name[1]) != ascii_lower("f5"@[1]));
            assert(eq_ignore_ascii_case(name, "f6"@));
        },
        HotkeyKey::F7 => {
            assert(ascii_lower(name[1]) != ascii_lower("f1"@[1]));
            assert(ascii_lower(name[1]) != ascii_lower("f2"@[1]));
            assert(ascii_lower(name[1]) != ascii_lower("f3"@[1]));
            assert(ascii_lower(name[1]) != ascii_lower("f4"@[1]));
            assert(ascii_lower(name[1]) != ascii_lower("f5"@[1]));
            assert(ascii_lower(name[1]) != ascii_lower("f6"@[1]));
            assert(eq_ignore_ascii_case(name, "f7"@));
        },
        HotkeyKey::F8 => {
            assert(ascii_lower(name[1]) != ascii_lower("f1"@[1]));
            assert(ascii_lower(name[1]) != ascii_lower("f2"@[1]));
            assert(ascii_lower(name[1]) != ascii_lower("f3"@[1]));
            assert(ascii_lower(name[1]) != ascii_lower("f4"@[1]));
            assert(ascii_lower(name[1]) != ascii_lower("f5"@[1]));
            assert(ascii_lower(name[1]) != ascii_lower("f6"@[1]));
            assert(ascii_lower(name[1]) != ascii_lower("f7"@[1]));
            assert(eq_ignore_ascii_case(name, "f8"@));
        },
        HotkeyKey::F9 => {
            assert(ascii_lower(name[1]) != ascii_lower("f1"@[1]));
            assert(ascii_lower(name[1]) != ascii_lower("f2"@[1]));
            assert(ascii_lower(name[1]) != ascii_lower("f3"@[1]));
            assert(ascii_lower(name[1]) != ascii_lower("f4"@[1]));
            assert(ascii_lower(name[1]) != ascii_lower("f5"@[1]));
            assert(ascii_lower(name[1]) != ascii_lower("f6"@[1]));
            assert(ascii_lower(name[1]) != ascii_lower("f7"@[1]));
            assert(ascii_lower(name[1]) != ascii_lower("f8"@[1]));
            assert(eq_ignore_ascii_case(name, "f9"@));
        },
        HotkeyKey::F10 => {
            assert(ascii_lower(name[0]) != ascii_lower("esc"@[0]));
            assert(eq_ignore_ascii_case(name, "f10"@));
        },
        HotkeyKey::F11 => {
            assert(ascii_lower(name[0]) != ascii_lower("esc"@[0]));
            assert(ascii_lower(name[2]) != ascii_lower("f10"@[2]));
            assert(eq_ignore_ascii_case(name, "f11"@));
        },
        HotkeyKey::F12 => {
            assert(ascii_lower(name[0]) != ascii_lower("esc"@[0]));
            assert(ascii_lower(name[2]) != ascii_lower("f10"@[2]));
            assert(ascii_lower(name[2]) != ascii_lower("f11"@[2]));
            assert(eq_ignore_ascii_case(name, "f12"@));
        },
    }
}

/// The display names of `modifiers`, in order.
pub open spec fn modifier_names(modifiers: Seq<HotkeyModifier>) -> Seq<Seq<char>> {
    Seq::new(modifiers.len(), |i: int| modifier_display_name(modifiers[i]))
}

proof fn lemma_modifiers_text_split(modifiers: Seq<HotkeyModifier>)
    ensures
        split_at_char(modifiers_text(modifiers), '+') == modifier_names(modifiers).push(
            Seq::<char>::empty(),
        ),
    decreases modifiers.len(),
{
    reveal_strlit("+");
    if modifiers.len() == 0 {
        assert(modifier_names(modifiers).push(Seq::<char>::empty()) =~= seq![Seq::<char>::empty()]);
    } else {
        let shorter = modifiers.drop_last();
        lemma_modifiers_text_split(shorter);
        let name = modifier_display_name(modifiers.last());
        lemma_modifier_name_parses(modifiers.last());
        let before = modifiers_text(shorter);
        lemma_split_append_plain(before, name, '+');
        let with_name = before + name;
        assert(modifiers_text(modifiers) == with_name.push('+')) by {
            assert(before + name + "+"@ =~= with_name.push('+'));
        }
        assert(with_name.push('+').drop_last() =~= with_name);
        let previous = modifier_names(shorter).push(Seq::<char>::empty());
        assert(previous.last() + name =~= name);
        assert(previous.update(previous.len() - 1, name) =~= modifier_names(modifiers));
        assert(split_at_char(modifiers_text(modifiers), '+') =~= modifier_names(modifiers).push(
            Seq::<char>::empty(),
        ));
    }
}

proof fn lemma_canonical_no_duplicates(modifiers: Seq<HotkeyModifier>)
    ensures
        canonical_modifier_order(modifiers).no_duplicates(),
{
    let sorted = canonical_modifier_order(modifiers);
    assert forall|i: int, j: int| 0 <= i < sorted.len() && 0 <= j < sorted.len() && i != j implies sorted[i] != sorted[j] by {
        assert(modifier_rank(sorted[i]) != modifier_rank(sorted[j]));
    }
}

proof fn lemma_parse_names(modifiers: Seq<HotkeyModifier>, count: int)
    requires
        modifiers.no_duplicates(),
        0 <= count <= modifiers.len(),
    ensures
        parse_tokens(modifier_names(modifiers).subrange(0, count)) == Ok::<
            (Seq<HotkeyModifier>, Option<HotkeyKey>),
            HotkeyParseErrorView,
        >((modifiers.subrange(0, count), None)),
    decreases count,
{
    if count > 0 {
        lemma_parse_names(modifiers, count - 1);
        let tokens = modifier_names(modifiers).subrange(0, count);
        assert(tokens.drop_last() =~= modifier_names(modifiers).subrange(0, count - 1));
        lemma_modifier_name_parses(modifiers[count - 1]);
        let earlier = modifiers.subrange(0, count - 1);
        assert(!earlier.contains(modifiers[count - 1])) by {
            if earlier.contains(modifiers[count - 1]) {
                let i = choose|i: int| 0 <= i < earlier.len() && earlier[i] == modifiers[count - 1];
                assert(modifiers[i] == modifiers[count - 1]);
            }
        }
        assert(earlier.push(modifiers[count - 1]) =~= modifiers.subrange(0, count));
    } else {
        assert(modifier_names(modifiers).subrange(0, 0) =~= Seq::<Seq<char>>::empty());
        assert(modifiers.subrange(0, 0) =~= Seq::<HotkeyModifier>::empty());
    }
}

/// The text of a binding parses back to the same binding: for canonical
/// modifiers and any key, `chord_outcome(binding_text(m, k))` is `Ok((m, k))`.
pub proof fn lemma_binding_text_round_trip(modifiers: Seq<HotkeyModifier>, key: HotkeyKey)
    requires
        well_formed_modifiers(modifiers),
    ensures
        chord_outcome(binding_text(modifiers, key)) == Ok::<
            (Seq<HotkeyModifier>, HotkeyKey),
            HotkeyParseErrorView,
        >((modifiers, key)),
{
    let names = modifier_names(modifiers);
    let key_name = key_display_name(key);
    lemma_key_name_parses(key);
    lemma_modifiers_text_split(modifiers);
    lemma_split_append_plain(modifiers_text(modifiers), key_name, '+');
    let segments = split_at_char(binding_text(modifiers, key), '+');
    let previous = names.push(Seq::<char>::empty());
    assert(previous.last() + key_name =~= key_name);
    assert(segments =~= names.push(key_name));
    let tokens = chord_tokens(binding_text(modifiers, key));
    assert forall|i: int| 0 <= i < segments.len() implies #[trigger] trim(segments[i]) == segments[i] by {
        if i < names.len() {
            lemma_modifier_name_parses(modifiers[i]);
        }
        lemma_trim_unpadded(segments[i]);
    }
    assert(tokens =~= names.push(key_name));
    lemma_canonical_no_duplicates(modifiers);
    lemma_parse_names(modifiers, modifiers.len() as int);
    assert(names.subrange(0, modifiers.len() as int) =~= names);
    assert(modifiers.subrange(0, modifiers.len() as int) =~= modifiers);
    assert(tokens.drop_last() =~= names);
    lemma_distinct_has_no_repeat(modifiers);
}

/// A modifier's name parses back to that modifier, so distinct modifiers have
/// distinct names.
pub proof fn lemma_modifier_name_round_trip(modifier: HotkeyModifier)
    ensures
        modifier_for_token(modifier_display_name(modifier)) == Some(modifier),
        forall|other: HotkeyModifier|
            other != modifier ==> modifier_display_name(other) != modifier_display_name(modifier),
{
    lemma_modifier_name_parses(modifier);
    assert forall|other: HotkeyModifier| other != modifier implies modifier_display_name(other)
        != modifier_display_name(modifier) by {
        lemma_modifier_name_parses(other);
    }
}

/// A key's name parses back to that key, so distinct keys have distinct names.
pub proof fn lemma_key_name_round_trip(key: HotkeyKey)
    ensures
        key_for_token(key_display_name(key)) == Some(key),
        forall|other: HotkeyKey| other != key ==> key_display_name(other) != key_display_name(key),
{
    lemma_key_name_parses(key);
    assert forall|other: HotkeyKey| other != key implies key_display_name(other)
        != key_display_name(key) by {
        lemma_key_name_parses(other);
    }
}

proof fn lemma_token_lookup_lowercase(token: Seq<char>)
    ensures
        ascii_lowercase(token).len() == token.len(),
        modifier_for_token(ascii_lowercase(token)) == modifier_for_token(token),
        key_for_token(ascii_lowercase(token)) == key_for_token(token),
{
    lemma_eq_ignore_case_lowercase(token, "ctrl"@);
    lemma_eq_ignore_case_lowercase(token, "control"@);
    lemma_eq_ignore_case_lowercase(token, "alt"@);
    lemma_eq_ignore_case_lowercase(token, "shift"@);
    lemma_eq_ignore_case_lowercase(token, "win"@);
    lemma_eq_ignore_case_lowercase(token, "windows"@);
    lemma_eq_ignore_case_lowercase(token, "esc"@);
    lemma_eq_ignore_case_lowercase(token, "escape"@);
    lemma_eq_ignore_case_lowercase(token, "f1"@);
    lemma_eq_ignore_case_lowercase(token, "f2"@);
    lemma_eq_ignore_case_lowercase(token, "f3"@);
    lemma_eq_ignore_case_lowercase(token, "f4"@);
    lemma_eq_ignore_case_lowercase(token, "f5"@);
    lemma_eq_ignore_case_lowercase(token, "f6"@);
    lemma_eq_ignore_case_lowercase(token, "f7"@);
    lemma_eq_ignore_case_lowercase(token, "f8"@);
    lemma_eq_ignore_case_lowercase(token, "f9"@);
    lemma_eq_ignore_case_lowercase(token, "f10"@);
    lemma_eq_ignore_case_lowercase(token, "f11"@);
    lemma_eq_ignore_case_lowercase(token, "f12"@);
}

proof fn lemma_parse_tokens_lowercase(tokens: Seq<Seq<char>>)
    requires
        parse_tokens(tokens) is Ok,
    ensures
        parse_tokens(tokens.map_values(|token: Seq<char>| ascii_lowercase(token))) == parse_tokens(
            tokens,
        ),
    decreases tokens.len(),
{
    if tokens.len() > 0 {
        let lowered = tokens.map_values(|token: Seq<char>| ascii_lowercase(token));
        let shorter = tokens.drop_last();
        assert(lowered.drop_last() =~= shorter.map_values(
            |token: Seq<char>| ascii_lowercase(token),
        ));
        lemma_parse_tokens_lowercase(shorter);
        lemma_token_lookup_lowercase(tokens.last());
        assert(lowered.last() == ascii_lowercase(tokens.last()));
    } else {
        assert(tokens.map_values(|token: Seq<char>| ascii_lowercase(token)) =~= tokens);
    }
}

/// Tokens are matched without regard to ASCII case: a chord that parses gives
/// the same binding when its text is lower-cased first.
pub proof fn lemma_lowercase_chord_parses_alike(text: Seq<char>)
    requires
        chord_outcome(text) is Ok,
    ensures
        chord_outcome(ascii_lowercase(text)) == chord_outcome(text),
{
    lemma_split_lowercase(text, '+');
    let segments = split_at_char(text, '+');
    let tokens = chord_tokens(text);
    let lowered_tokens = chord_tokens(ascii_lowercase(text));
    assert forall|i: int| 0 <= i < segments.len() implies #[trigger] trim(
        ascii_lowercase(segments[i]),
    ) == ascii_lowercase(trim(segments[i])) by {
        lemma_trim_lowercase(segments[i]);
    }
    assert(lowered_tokens =~= tokens.map_values(|token: Seq<char>| ascii_lowercase(token)));
    lemma_parse_tokens_lowercase(tokens);
}

/// The lower-case text of a binding parses back to the same binding: for
/// canonical modifiers and any key, lower-casing `binding_text(m, k)` and
/// parsing it gives `Ok((m, k))`.
pub proof fn lemma_lowercase_binding_text_round_trip(modifiers: Seq<HotkeyModifier>, key: HotkeyKey)
    requires
        well_formed_modifiers(modifiers),
    ensures
        chord_outcome(ascii_lowercase(binding_text(modifiers, key))) == Ok::<
            (Seq<HotkeyModifier>, HotkeyKey),
            HotkeyParseErrorView,
        >((modifiers, key)),
{
    lemma_binding_text_round_trip(modifiers, key);
    lemma_lowercase_chord_parses_alike(binding_text(modifiers, key));
}

proof fn lemma_distinct_has_no_repeat(modifiers: Seq<HotkeyModifier>)
    requires
        modifiers.no_duplicates(),
    ensures
        !exists|index: int| is_first_repeat(modifiers, index),
{
    if exists|index: int| is_first_repeat(modifiers, index) {
        let index = choose|index: int| is_first_repeat(modifiers, index);
        let earlier = choose|earlier: int| 0 <= earlier < index && modifiers[earlier] == modifiers[index];
        assert(modifiers[earlier] == modifiers[index]);
    }
}

/// The order in which distinct modifiers are given does not matter: two lists
/// with the same modifiers, each naming every modifier once, build the same
/// binding.
pub proof fn lemma_binding_ignores_modifier_order(
    first: Seq<HotkeyModifier>,
    second: Seq<HotkeyModifier>,
    key: HotkeyKey,
)
    requires
        first.no_duplicates(),
        second.no_duplicates(),
        forall|modifier: HotkeyModifier| first.contains(modifier) == second.contains(modifier),
    ensures
        binding_outcome(first, key) == binding_outcome(second, key),
{
    lemma_distinct_has_no_repeat(first);
    lemma_distinct_has_no_repeat(second);
    if first.len() > 0 {
        assert(second.contains(first[0]));
    }
    if second.len() > 0 {
        assert(first.contains(second[0]));
    }
    assert(canonical_modifier_order(first) =~= canonical_modifier_order(second));
}

impl Clone for HotkeyBinding {
    fn clone(&self) -> (copy: Self)
        ensures
            copy@ == self@,
    {
        self.duplicate()
    }
}

impl core::str::FromStr for HotkeyBinding {
    type Err = HotkeyParseError;

    fn from_str(value: &str) -> (result: Result<Self, Self::Err>)
        ensures
            binding_result_view(result) == chord_outcome(value@),
    {
        HotkeyBinding::parse_text(value)
    }
}

} // verus!
