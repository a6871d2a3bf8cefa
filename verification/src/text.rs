use vstd::prelude::*;
use vstd::string::*;

verus! {

/// The characters with the Unicode `White_Space` property, which `char::is_whitespace`
/// and `str::trim` recognise.
pub open spec fn is_unicode_whitespace(c: char) -> bool {
    ||| '\u{9}' <= c <= '\u{d}'
    ||| c == ' '
    ||| c == '\u{85}'
    ||| c == '\u{a0}'
    ||| c == '\u{1680}'
    ||| '\u{2000}' <= c <= '\u{200a}'
    ||| c == '\u{2028}'
    ||| c == '\u{2029}'
    ||| c == '\u{202f}'
    ||| c == '\u{205f}'
    ||| c == '\u{3000}'
}

/// Reports whether `c` has the Unicode `White_Space` property.
pub fn is_whitespace(c: char) -> (whitespace: bool)
    ensures
        whitespace == is_unicode_whitespace(c),
{
    ('\u{9}' <= c && c <= '\u{d}') || c == ' ' || c == '\u{85}' || c == '\u{a0}' || c
        == '\u{1680}' || ('\u{2000}' <= c && c <= '\u{200a}') || c == '\u{2028}' || c
        == '\u{2029}' || c == '\u{202f}' || c == '\u{205f}' || c == '\u{3000}'
}

/// A text consisting only of whitespace (an empty text included).
pub open spec fn is_blank(text: Seq<char>) -> bool {
    forall|i: int| 0 <= i < text.len() ==> is_unicode_whitespace(#[trigger] text[i])
}

/// The text without its leading whitespace.
pub open spec fn trim_start(text: Seq<char>) -> Seq<char>
    decreases text.len(),
{
    if text.len() > 0 && is_unicode_whitespace(text[0]) {
        trim_start(text.subrange(1, text.len() as int))
    } else {
        text
    }
}

/// The text without its trailing whitespace.
pub open spec fn trim_end(text: Seq<char>) -> Seq<char>
    decreases text.len(),
{
    if text.len() > 0 && is_unicode_whitespace(text.last()) {
        trim_end(text.drop_last())
    } else {
        text
    }
}

/// The text without leading and trailing whitespace, as `str::trim` returns it.
pub open spec fn trim(text: Seq<char>) -> Seq<char> {
    trim_end(trim_start(text))
}

/// Lower-cases an ASCII letter and leaves every other character unchanged.
pub open spec fn ascii_lower(c: char) -> char {
    if 'A' <= c <= 'Z' {
        ((c as u32) + 32) as char
    } else {
        c
    }
}

/// Two texts are equal when ASCII letters are compared without regard to case.
pub open spec fn eq_ignore_ascii_case(left: Seq<char>, right: Seq<char>) -> bool {
    left.len() == right.len() && forall|i: int|
        0 <= i < left.len() ==> ascii_lower(#[trigger] left[i]) == ascii_lower(right[i])
}

/// Splits a text at every `separator`, as `str::split` with a character pattern does:
/// a text with `k` separators has `k + 1` segments, some of which may be empty.
pub open spec fn split_at_char(text: Seq<char>, separator: char) -> Seq<Seq<char>>
    decreases text.len(),
{
    if text.len() == 0 {
        seq![Seq::<char>::empty()]
    } else {
        let previous = split_at_char(text.drop_last(), separator);
        if text.last() == separator {
            previous.push(Seq::<char>::empty())
        } else {
            previous.update(previous.len() - 1, previous.last().push(text.last()))
        }
    }
}

pub proof fn lemma_split_nonempty(text: Seq<char>, separator: char)
    ensures
        split_at_char(text, separator).len() >= 1,
    decreases text.len(),
{
    if text.len() > 0 {
        lemma_split_nonempty(text.drop_last(), separator);
    }
}

/// Appending text without a separator extends the last segment.
pub proof fn lemma_split_append_plain(text: Seq<char>, tail: Seq<char>, separator: char)
    requires
        !tail.contains(separator),
    ensures
        split_at_char(text + tail, separator) == split_at_char(text, separator).update(
            split_at_char(text, separator).len() - 1,
            split_at_char(text, separator).last() + tail,
        ),
    decreases tail.len(),
{
    lemma_split_nonempty(text, separator);
    if tail.len() == 0 {
        assert(text + tail =~= text);
        let segments = split_at_char(text, separator);
        assert(segments.last() + tail =~= segments.last());
        assert(segments.update(segments.len() - 1, segments.last()) =~= segments);
    } else {
        let shorter = tail.drop_last();
        assert(!shorter.contains(separator)) by {
            if shorter.contains(separator) {
                let i = choose|i: int| 0 <= i < shorter.len() && shorter[i] == separator;
                assert(tail[i] == separator);
            }
        }
        lemma_split_append_plain(text, shorter, separator);
        assert((text + tail).drop_last() =~= text + shorter);
        assert(tail.last() != separator) by {
            assert(tail[tail.len() - 1] == tail.last());
        }
        assert((text + tail).last() == tail.last());
        let segments = split_at_char(text, separator);
        assert((segments.last() + shorter).push(tail.last()) =~= segments.last() + tail);
        assert(split_at_char(text + tail, separator) =~= segments.update(
            segments.len() - 1,
            segments.last() + tail,
        ));
    }
}

/// A text that neither starts nor ends with whitespace is its own trim.
pub proof fn lemma_trim_unpadded(text: Seq<char>)
    requires
        text.len() > 0,
        !is_unicode_whitespace(text[0]),
        !is_unicode_whitespace(text.last()),
    ensures
        trim(text) == text,
{
}

/// The text with every ASCII letter lower-cased, as `str::to_ascii_lowercase`
/// returns it.
pub open spec fn ascii_lowercase(text: Seq<char>) -> Seq<char> {
    text.map_values(|c: char| ascii_lower(c))
}

/// Lower-casing maps upper-case letters to lower-case letters and keeps every
/// other character, so it is idempotent and keeps whitespace and punctuation.
pub proof fn lemma_ascii_lower_char(c: char)
    ensures
        ascii_lower(ascii_lower(c)) == ascii_lower(c),
        is_unicode_whitespace(ascii_lower(c)) == is_unicode_whitespace(c),
        'A' <= c <= 'Z' ==> 'a' <= ascii_lower(c) <= 'z',
        !('A' <= c <= 'Z') ==> ascii_lower(c) == c,
{
    if 'A' <= c <= 'Z' {
        let code: u32 = ((c as u32) + 32) as u32;
        assert(0x61 <= code <= 0x7a);
    }
}

/// Comparing without regard to ASCII case is unaffected by lower-casing.
pub proof fn lemma_eq_ignore_case_lowercase(left: Seq<char>, right: Seq<char>)
    ensures
        ascii_lowercase(left).len() == left.len(),
        eq_ignore_ascii_case(ascii_lowercase(left), right) == eq_ignore_ascii_case(left, right),
{
    let lower = ascii_lowercase(left);
    assert forall|i: int| 0 <= i < left.len() implies ascii_lower(#[trigger] lower[i])
        == ascii_lower(left[i]) by {
        lemma_ascii_lower_char(left[i]);
    }
    if eq_ignore_ascii_case(lower, right) {
        assert forall|i: int| 0 <= i < left.len() implies ascii_lower(#[trigger] left[i])
            == ascii_lower(right[i]) by {
            assert(ascii_lower(lower[i]) == ascii_lower(right[i]));
        }
    }
}

/// Splitting at a character that is not a letter commutes with lower-casing.
pub proof fn lemma_split_lowercase(text: Seq<char>, separator: char)
    requires
        !('A' <= separator <= 'Z'),
        !('a' <= separator <= 'z'),
    ensures
        split_at_char(ascii_lowercase(text), separator) == split_at_char(text, separator).map_values(
            |segment: Seq<char>| ascii_lowercase(segment),
        ),
    decreases text.len(),
{
    let lower = ascii_lowercase(text);
    if text.len() == 0 {
        assert(lower =~= Seq::<char>::empty());
        assert(ascii_lowercase(Seq::<char>::empty()) =~= Seq::<char>::empty());
        assert(split_at_char(text, separator).map_values(
            |segment: Seq<char>| ascii_lowercase(segment),
        ) =~= seq![Seq::<char>::empty()]);
    } else {
        let shorter = text.drop_last();
        lemma_split_lowercase(shorter, separator);
        lemma_split_nonempty(shorter, separator);
        assert(lower.drop_last() =~= ascii_lowercase(shorter));
        lemma_ascii_lower_char(text.last());
        assert(lower.last() == ascii_lower(text.last()));
        assert((lower.last() == separator) == (text.last() == separator));
        let previous = split_at_char(shorter, separator);
        let lowered = previous.map_values(|segment: Seq<char>| ascii_lowercase(segment));
        if text.last() == separator {
            assert(ascii_lowercase(Seq::<char>::empty()) =~= Seq::<char>::empty());
            assert(previous.push(Seq::<char>::empty()).map_values(
                |segment: Seq<char>| ascii_lowercase(segment),
            ) =~= lowered.push(Seq::<char>::empty()));
        } else {
            let grown = previous.last().push(text.last());
            assert(ascii_lowercase(grown) =~= lowered.last().push(lower.last()));
            assert(previous.update(previous.len() - 1, grown).map_values(
                |segment: Seq<char>| ascii_lowercase(segment),
            ) =~= lowered.update(lowered.len() - 1, lowered.last().push(lower.last())));
        }
    }
}

proof fn lemma_trim_start_lowercase(text: Seq<char>)
    ensures
        trim_start(ascii_lowercase(text)) == ascii_lowercase(trim_start(text)),
    decreases text.len(),
{
    if text.len() > 0 {
        lemma_ascii_lower_char(text[0]);
        let rest = text.subrange(1, text.len() as int);
        assert(ascii_lowercase(text).subrange(1, text.len() as int) =~= ascii_lowercase(rest));
        lemma_trim_start_lowercase(rest);
    }
}

proof fn lemma_trim_end_lowercase(text: Seq<char>)
    ensures
        trim_end(ascii_lowercase(text)) == ascii_lowercase(trim_end(text)),
    decreases text.len(),
{
    if text.len() > 0 {
        lemma_ascii_lower_char(text.last());
        assert(ascii_lowercase(text).drop_last() =~= ascii_lowercase(text.drop_last()));
        lemma_trim_end_lowercase(text.drop_last());
    }
}

/// Trimming commutes with lower-casing, since lower-casing keeps whitespace.
pub proof fn lemma_trim_lowercase(text: Seq<char>)
    ensures
        trim(ascii_lowercase(text)) == ascii_lowercase(trim(text)),
{
    lemma_trim_start_lowercase(text);
    lemma_trim_end_lowercase(trim_start(text));
}

/// Appends `c` to `text` with `String::push`.
#[verifier::external_body]
pub fn push_char(text: &mut String, c: char)
    ensures
        final(text)@ == old(text)@.push(c),
{
    text.push(c);
}

/// The characters of a string slice, in order.
pub fn chars_of(text: &str) -> (chars: Vec<char>)
    ensures
        chars@ == text@,
{
    let length = text.unicode_len();
    let mut chars: Vec<char> = Vec::new();
    let mut index: usize = 0;
    while index < length
        invariant
            length == text@.len(),
            index <= length,
            chars@ == text@.subrange(0, index as int),
        decreases length - index,
    {
        let c = text.get_char(index);
        chars.push(c);
        index += 1;
        assert(chars@ =~= text@.subrange(0, index as int));
    }
    assert(chars@ =~= text@);
    chars
}

/// A string holding the given characters.
pub fn string_from_chars(chars: &[char]) -> (text: String)
    ensures
        text@ == chars@,
{
    let mut text = String::new();
    let mut index: usize = 0;
    while index < chars.len()
        invariant
            index <= chars.len(),
            text@ == chars@.subrange(0, index as int),
        decreases chars.len() - index,
    {
        push_char(&mut text, chars[index]);
        index += 1;
        assert(text@ =~= chars@.subrange(0, index as int));
    }
    assert(chars@.subrange(0, chars.len() as int) =~= chars@);
    text
}

/// Appends the characters of a string slice.
pub fn push_str(text: &mut String, tail: &str)
    ensures
        final(text)@ == old(text)@ + tail@,
{
    text.append(tail);
}

/// Lower-cases an ASCII letter and leaves every other character unchanged.
pub fn to_ascii_lower(c: char) -> (lower: char)
    ensures
        lower == ascii_lower(c),
{
    if 'A' <= c && c <= 'Z' {
        let code: u8 = (c as u8) + 32;
        code as char
    } else {
        c
    }
}

/// Compares a text with a string slice, ignoring the case of ASCII letters.
pub fn matches_ignore_ascii_case(text: &[char], expected: &str) -> (equal: bool)
    ensures
        equal == eq_ignore_ascii_case(text@, expected@),
{
    let expected_chars = chars_of(expected);
    if text.len() != expected_chars.len() {
        return false;
    }
    let mut index: usize = 0;
    while index < text.len()
        invariant
            index <= text.len(),
            text.len() == expected_chars@.len(),
            expected_chars@ == expected@,
            forall|i: int|
                0 <= i < index ==> ascii_lower(#[trigger] text@[i]) == ascii_lower(
                    expected_chars@[i],
                ),
        decreases text.len() - index,
    {
        if to_ascii_lower(text[index]) != to_ascii_lower(expected_chars[index]) {
            return false;
        }
        index += 1;
    }
    true
}

/// Reports whether every character of `text` is whitespace.
pub fn is_blank_chars(text: &[char]) -> (blank: bool)
    ensures
        blank == is_blank(text@),
{
    let mut index: usize = 0;
    while index < text.len()
        invariant
            index <= text.len(),
            forall|i: int| 0 <= i < index ==> is_unicode_whitespace(#[trigger] text@[i]),
        decreases text.len() - index,
    {
        if !is_whitespace(text[index]) {
            return false;
        }
        index += 1;
    }
    true
}

proof fn lemma_trim_start_skip(text: Seq<char>, start: int)
    requires
        0 <= start <= text.len(),
        forall|i: int| 0 <= i < start ==> is_unicode_whitespace(#[trigger] text[i]),
    ensures
        trim_start(text) == trim_start(text.subrange(start, text.len() as int)),
    decreases start,
{
    if start > 0 {
        let rest = text.subrange(1, text.len() as int);
        assert(is_unicode_whitespace(text[0]));
        assert(trim_start(text) == trim_start(rest));
        assert forall|i: int| 0 <= i < start - 1 implies is_unicode_whitespace(#[trigger] rest[i]) by {
            assert(rest[i] == text[i + 1]);
        }
        lemma_trim_start_skip(rest, start - 1);
        assert(rest.subrange(start - 1, rest.len() as int) =~= text.subrange(
            start,
            text.len() as int,
        ));
    } else {
        assert(text.subrange(0, text.len() as int) =~= text);
    }
}

proof fn lemma_trim_end_skip(text: Seq<char>, end: int)
    requires
        0 <= end <= text.len(),
        forall|i: int| end <= i < text.len() ==> is_unicode_whitespace(#[trigger] text[i]),
    ensures
        trim_end(text) == trim_end(text.subrange(0, end)),
    decreases text.len() - end,
{
    if end < text.len() {
        let shorter = text.drop_last();
        lemma_trim_end_skip(shorter, end);
        assert(shorter.subrange(0, end) =~= text.subrange(0, end));
    } else {
        assert(text.subrange(0, end) =~= text);
    }
}

/// The bounds of `text` with leading and trailing whitespace removed.
pub fn trimmed_bounds(text: &[char]) -> (bounds: (usize, usize))
    ensures
        bounds.0 <= bounds.1 <= text.len(),
        text@.subrange(bounds.0 as int, bounds.1 as int) == trim(text@),
{
    let mut start: usize = 0;
    while start < text.len() && is_whitespace(text[start])
        invariant
            start <= text.len(),
            forall|i: int| 0 <= i < start ==> is_unicode_whitespace(#[trigger] text@[i]),
        decreases text.len() - start,
    {
        start += 1;
    }
    proof {
        lemma_trim_start_skip(text@, start as int);
    }
    let ghost started = text@.subrange(start as int, text.len() as int);
    assert(trim_start(started) == started);
    let mut end: usize = text.len();
    while end > start && is_whitespace(text[end - 1])
        invariant
            start <= end <= text.len(),
            started == text@.subrange(start as int, text.len() as int),
            forall|i: int| end <= i < text.len() ==> is_unicode_whitespace(#[trigger] text@[i]),
        decreases end,
    {
        end -= 1;
    }
    proof {
        assert forall|i: int|
            end - start <= i < started.len() implies is_unicode_whitespace(#[trigger] started[i]) by {
            assert(started[i] == text@[start + i]);
        }
        lemma_trim_end_skip(started, end - start);
        let kept = started.subrange(0, end - start);
        assert(kept =~= text@.subrange(start as int, end as int));
        if kept.len() > 0 {
            assert(kept.last() == text@[end - 1]);
        }
        assert(trim_end(kept) == kept);
    }
    (start, end)
}

/// A copy of `text[start..end]`.
pub fn copy_range(text: &[char], start: usize, end: usize) -> (copy: Vec<char>)
    requires
        start <= end <= text.len(),
    ensures
        copy@ == text@.subrange(start as int, end as int),
{
    let mut copy: Vec<char> = Vec::new();
    let mut index: usize = start;
    while index < end
        invariant
            start <= index <= end <= text.len(),
            copy@ == text@.subrange(start as int, index as int),
        decreases end - index,
    {
        copy.push(text[index]);
        index += 1;
        assert(copy@ =~= text@.subrange(start as int, index as int));
    }
    copy
}

/// The segments of `text` between occurrences of `separator`.
pub fn split_chars(text: &[char], separator: char) -> (segments: Vec<Vec<char>>)
    ensures
        segments@.map_values(|segment: Vec<char>| segment@) == split_at_char(text@, separator),
{
    let mut segments: Vec<Vec<char>> = Vec::new();
    let mut current: Vec<char> = Vec::new();
    let mut index: usize = 0;
    while index < text.len()
        invariant
            index <= text.len(),
            split_at_char(text@.subrange(0, index as int), separator) == segments@.map_values(
                |segment: Vec<char>| segment@,
            ).push(current@),
        decreases text.len() - index,
    {
        let c = text[index];
        let ghost before = segments@.map_values(|segment: Vec<char>| segment@);
        let ghost prefix = text@.subrange(0, index + 1);
        assert(prefix.drop_last() =~= text@.subrange(0, index as int));
        assert(prefix.last() == c);
        if c == separator {
            let finished = current;
            segments.push(finished);
            current = Vec::new();
            assert(segments@.map_values(|segment: Vec<char>| segment@) =~= before.push(
                finished@,
            ));
            assert(current@ =~= Seq::<char>::empty());
        } else {
            let ghost old_current = current@;
            current.push(c);
            assert(before.push(old_current).update(before.len() as int, old_current.push(c))
                =~= before.push(current@));
        }
        index += 1;
    }
    let ghost before = segments@.map_values(|segment: Vec<char>| segment@);
    let finished = current;
    segments.push(finished);
    assert(segments@.map_values(|segment: Vec<char>| segment@) =~= before.push(finished@));
    assert(text@.subrange(0, text.len() as int) =~= text@);
    segments
}

/// The decimal digit character of a number below ten.
pub open spec fn digit_char(digit: nat) -> char {
    (('0' as u32) + digit) as char
}

/// The decimal representation of a natural number, without leading zeros.
pub open spec fn decimal_text(value: nat) -> Seq<char>
    decreases value,
{
    if value < 10 {
        seq![digit_char(value)]
    } else {
        decimal_text(value / 10).push(digit_char(value % 10))
    }
}

/// The decimal representation of `value`.
pub fn decimal_string(value: u64) -> (text: String)
    ensures
        text@ == decimal_text(value as nat),
{
    let mut digits: Vec<char> = Vec::new();
    let mut rest: u64 = value;
    let ghost mut suffix: Seq<char> = Seq::empty();
    loop
        invariant_except_break
            decimal_text(value as nat) == decimal_text(rest as nat) + suffix,
        invariant
            digits@ == suffix.reverse(),
        ensures
            decimal_text(value as nat) == suffix,
            digits@ == suffix.reverse(),
        decreases rest,
    {
        let digit: u8 = (rest % 10) as u8;
        let c = (48u8 + digit) as char;
        assert(c == digit_char((rest % 10) as nat));
        digits.push(c);
        proof {
            if rest >= 10 {
                assert(decimal_text(rest as nat) == decimal_text((rest / 10) as nat).push(c));
                assert(decimal_text(value as nat) == decimal_text((rest / 10) as nat) + seq![c]
                    + suffix) by {
                    assert(decimal_text((rest / 10) as nat).push(c) + suffix =~= decimal_text(
                        (rest / 10) as nat,
                    ) + seq![c] + suffix);
                }
            }
            suffix = seq![c] + suffix;
            assert(digits@ =~= suffix.reverse());
        }
        if rest < 10 {
            proof {
                assert(decimal_text(rest as nat) == seq![c]);
                assert(decimal_text(value as nat) =~= suffix);
            }
            break;
        }
        rest = rest / 10;
        proof {
            assert(decimal_text(value as nat) =~= decimal_text(rest as nat) + suffix);
        }
    }
    let mut text = String::new();
    let mut index: usize = digits.len();
    while index > 0
        invariant
            index <= digits.len(),
            digits@ == suffix.reverse(),
            decimal_text(value as nat) == suffix,
            text@ == suffix.subrange(0, (digits.len() - index) as int),
        decreases index,
    {
        index -= 1;
        push_char(&mut text, digits[index]);
        assert(text@ =~= suffix.subrange(0, (digits.len() - index) as int));
    }
    assert(text@ =~= suffix);
    text
}

/// The upper-case hexadecimal digit character of a number below sixteen.
pub open spec fn hex_digit_char(digit: nat) -> char {
    if digit < 10 {
        (('0' as u32) + digit) as char
    } else {
        (('A' as u32) + digit - 10) as char
    }
}

/// The upper-case hexadecimal representation of a natural number, without
/// leading zeros.
pub open spec fn hex_text(value: nat) -> Seq<char>
    decreases value,
{
    if value < 16 {
        seq![hex_digit_char(value)]
    } else {
        hex_text(value / 16).push(hex_digit_char(value % 16))
    }
}

/// The upper-case hexadecimal representation of `value`, as `{:X}` formats it.
pub fn hex_string(value: u64) -> (text: String)
    ensures
        text@ == hex_text(value as nat),
{
    let mut digits: Vec<char> = Vec::new();
    let mut rest: u64 = value;
    let ghost mut suffix: Seq<char> = Seq::empty();
    loop
        invariant_except_break
            hex_text(value as nat) == hex_text(rest as nat) + suffix,
        invariant
            digits@ == suffix.reverse(),
        ensures
            hex_text(value as nat) == suffix,
            digits@ == suffix.reverse(),
        decreases rest,
    {
        let digit: u8 = (rest % 16) as u8;
        let c = if digit < 10 {
            (48u8 + digit) as char
        } else {
            (55u8 + digit) as char
        };
        assert(c == hex_digit_char((rest % 16) as nat));
        digits.push(c);
        proof {
            if rest >= 16 {
                assert(hex_text(rest as nat) == hex_text((rest / 16) as nat).push(c));
                assert(hex_text(value as nat) == hex_text((rest / 16) as nat) + seq![c] + suffix)
                    by {
                    assert(hex_text((rest / 16) as nat).push(c) + suffix =~= hex_text(
                        (rest / 16) as nat,
                    ) + seq![c] + suffix);
                }
            }
            suffix = seq![c] + suffix;
            assert(digits@ =~= suffix.reverse());
        }
        if rest < 16 {
            proof {
                assert(hex_text(rest as nat) == seq![c]);
                assert(hex_text(value as nat) =~= suffix);
            }
            break;
        }
        rest = rest / 16;
        proof {
            assert(hex_text(value as nat) =~= hex_text(rest as nat) + suffix);
        }
    }
    let mut text = String::new();
    let mut index: usize = digits.len();
    while index > 0
        invariant
            index <= digits.len(),
            digits@ == suffix.reverse(),
            hex_text(value as nat) == suffix,
            text@ == suffix.subrange(0, (digits.len() - index) as int),
        decreases index,
    {
        index -= 1;
        push_char(&mut text, digits[index]);
        assert(text@ =~= suffix.subrange(0, (digits.len() - index) as int));
    }
    assert(text@ =~= suffix);
    text
}

/// The text `Display` gives a `bool`.
pub open spec fn bool_text(value: bool) -> Seq<char> {
    if value {
        "true"@
    } else {
        "false"@
    }
}

/// Joins texts with a separator between each two, as `join` does.
pub open spec fn joined(parts: Seq<Seq<char>>, separator: Seq<char>) -> Seq<char>
    decreases parts.len(),
{
    if parts.len() == 0 {
        Seq::empty()
    } else if parts.len() == 1 {
        parts[0]
    } else {
        joined(parts.drop_last(), separator) + separator + parts.last()
    }
}

/// The character sequences of a list of strings.
pub open spec fn texts_view(parts: Seq<String>) -> Seq<Seq<char>> {
    Seq::new(parts.len(), |i: int| parts[i]@)
}

/// The strings of `parts` with `separator` between each two.
pub fn join_texts(parts: &[String], separator: &str) -> (text: String)
    ensures
        text@ == joined(texts_view(parts@), separator@),
{
    let mut text = String::new();
    let mut index: usize = 0;
    while index < parts.len()
        invariant
            index <= parts.len(),
            text@ == joined(texts_view(parts@.subrange(0, index as int)), separator@),
        decreases parts.len() - index,
    {
        let ghost before = texts_view(parts@.subrange(0, index as int));
        if index > 0 {
            push_str(&mut text, separator);
        }
        push_str(&mut text, parts[index].as_str());
        proof {
            let after = texts_view(parts@.subrange(0, index + 1));
            assert(after.drop_last() =~= before);
            assert(after.last() == parts@[index as int]@);
            if index == 0 {
                assert(text@ =~= joined(after, separator@));
            } else {
                assert(text@ =~= joined(before, separator@) + separator@ + after.last());
            }
        }
        index += 1;
    }
    assert(parts@.subrange(0, parts.len() as int) =~= parts@);
    text
}

} // verus!
