//! Text primitives over the characters of a string.

use vstd::prelude::*;

verus! {

/// `String::push` appends one character to the end of the string.
pub assume_specification[ std::string::String::push ](string: &mut std::string::String, c: char)
    ensures
        final(string)@ == old(string)@.push(c),
;

/// `char::is_whitespace` tests the Unicode `White_Space` property.
pub assume_specification[ char::is_whitespace ](c: char) -> (answer: bool)
    ensures
        answer == is_white_space(c),
;

/// The characters with the Unicode `White_Space` property.
pub open spec fn is_white_space(c: char) -> bool {
    ||| '\u{9}' <= c <= '\u{d}'
    ||| c == '\u{20}'
    ||| c == '\u{85}'
    ||| c == '\u{a0}'
    ||| c == '\u{1680}'
    ||| '\u{2000}' <= c <= '\u{200a}'
    ||| c == '\u{2028}'
    ||| c == '\u{2029}'
    ||| c == '\u{202f}'
    ||| c == '\u{205f}'
    ||| c == '\u{3000}'
}

/// `str` equality compares the two strings character by character.
pub assume_specification[ <str as PartialEq<str>>::eq ](left: &str, right: &str) -> (same: bool)
    ensures
        same == (left@ == right@),
;

/// The text that `String::from_utf8_lossy` reads out of bytes.
pub uninterp spec fn lossy_text(bytes: Seq<u8>) -> Seq<char>;

/// `String::from_utf8_lossy` reads bytes as UTF-8 and puts a replacement
/// character where they are not. Valid UTF-8 is read as it is.
#[verifier::external_body]
pub(crate) fn utf8_lossy(bytes: &[u8]) -> (text: String)
    ensures
        text@ == lossy_text(bytes@),
        vstd::utf8::valid_utf8(bytes@) ==> vstd::utf8::encode_utf8(text@) == bytes@,
{
    String::from_utf8_lossy(bytes).into_owned()
}

/// The text of an optional string.
pub open spec fn text_of(text: Option<&str>) -> Option<Seq<char>> {
    match text {
        Some(text) => Some(text@),
        None => None,
    }
}

/// The text of an optional owned string.
pub open spec fn string_of(text: Option<String>) -> Option<Seq<char>> {
    match text {
        Some(text) => Some(text@),
        None => None,
    }
}

/// Whether two strings hold the same characters.
pub fn same_text(left: &str, right: &str) -> (same: bool)
    ensures
        same == (left@ == right@),
{
    left.eq(right)
}

/// The characters of `text`, one by one.
pub fn chars_of(text: &str) -> (chars: Vec<char>)
    ensures
        chars@ == text@,
{
    let mut chars: Vec<char> = Vec::new();
    for c in it: text.chars()
        invariant
            chars@ == it.seq().take(it.index()),
            it.seq() == text@,
    {
        chars.push(c);
    }
    chars
}

/// The string made of the characters from `from` up to `to`.
pub fn string_from(chars: &Vec<char>, from: usize, to: usize) -> (text: String)
    requires
        from <= to <= chars.len(),
    ensures
        text@ == chars@.subrange(from as int, to as int),
{
    let mut text = String::new();
    for index in from..to
        invariant
            from <= to <= chars.len(),
            text@ == chars@.subrange(from as int, index as int),
    {
        text.push(chars[index]);
    }
    text
}

/// The number of bytes of a text in UTF-8.
pub open spec fn byte_count(text: Seq<char>) -> nat {
    vstd::utf8::encode_utf8(text).len()
}

/// The number of bytes of a text in UTF-8.
pub fn byte_len(text: &str) -> (len: usize)
    ensures
        len == byte_count(text@),
{
    text.as_bytes().len()
}

/// Whether a text holds nothing but white space.
pub open spec fn blank(text: Seq<char>) -> bool {
    forall|i: int| 0 <= i < text.len() ==> is_white_space(#[trigger] text[i])
}

/// Whether a text holds nothing but white space.
pub fn is_blank(text: &str) -> (answer: bool)
    ensures
        answer == blank(text@),
{
    let chars = chars_of(text);
    for index in 0..chars.len()
        invariant
            chars@ == text@,
            forall|i: int| 0 <= i < index ==> is_white_space(#[trigger] chars[i]),
    {
        if !chars[index].is_whitespace() {
            assert(!is_white_space(text@[index as int]));
            return false;
        }
    }
    true
}

/// The text without the white space at its start.
pub open spec fn trimmed_start(text: Seq<char>) -> Seq<char>
    decreases text.len(),
{
    if text.len() > 0 && is_white_space(text[0]) {
        trimmed_start(text.drop_first())
    } else {
        text
    }
}

/// The text without the white space at its end.
pub open spec fn trimmed_end(text: Seq<char>) -> Seq<char>
    decreases text.len(),
{
    if text.len() > 0 && is_white_space(text.last()) {
        trimmed_end(text.drop_last())
    } else {
        text
    }
}

/// The text without the white space around it.
pub open spec fn trimmed(text: Seq<char>) -> Seq<char> {
    trimmed_end(trimmed_start(text))
}

proof fn lemma_trimmed_start(text: Seq<char>)
    ensures
        trimmed_start(text).len() > 0 ==> !is_white_space(trimmed_start(text)[0]),
        blank(text) <==> trimmed_start(text).len() == 0,
    decreases text.len(),
{
    if text.len() > 0 && is_white_space(text[0]) {
        let rest = text.drop_first();
        lemma_trimmed_start(rest);
        assert(blank(rest) ==> blank(text)) by {
            if blank(rest) {
                assert forall|i: int| 0 <= i < text.len() implies is_white_space(
                    #[trigger] text[i],
                ) by {
                    if i > 0 {
                        assert(is_white_space(rest[i - 1]));
                    }
                }
            }
        }
        assert(blank(text) ==> blank(rest)) by {
            if blank(text) {
                assert forall|i: int| 0 <= i < rest.len() implies is_white_space(
                    #[trigger] rest[i],
                ) by {
                    assert(is_white_space(text[i + 1]));
                }
            }
        }
    }
}

proof fn lemma_trimmed_end(text: Seq<char>)
    ensures
        trimmed_end(text).len() > 0 ==> !is_white_space(trimmed_end(text).last())
            && trimmed_end(text)[0] == text[0],
        text.len() > 0 && !is_white_space(text[0]) ==> trimmed_end(text).len() > 0,
        text.len() == 0 ==> trimmed_end(text).len() == 0,
    decreases text.len(),
{
    if text.len() > 0 && is_white_space(text.last()) {
        lemma_trimmed_end(text.drop_last());
    }
}

/// A trimmed text has nothing around it, and only blank texts are trimmed to
/// nothing.
pub proof fn lemma_trimmed(text: Seq<char>)
    ensures
        trimmed(trimmed(text)) == trimmed(text),
        blank(text) <==> trimmed(text).len() == 0,
        blank(text) <==> blank(trimmed(text)),
{
    lemma_trimmed_start(text);
    lemma_trimmed_end(trimmed_start(text));
    lemma_trimmed_start(trimmed(text));
}

/// The text without the white space around it.
pub fn trim(text: &str) -> (inner: String)
    ensures
        inner@ == trimmed(text@),
{
    let chars = chars_of(text);
    let mut from: usize = 0;
    assert(chars@.skip(0) =~= chars@);
    while from < chars.len() && chars[from].is_whitespace()
        invariant
            from <= chars.len(),
            trimmed_start(chars@) == trimmed_start(chars@.skip(from as int)),
        decreases chars.len() - from,
    {
        assert(chars@.skip(from as int).drop_first() =~= chars@.skip(from + 1));
        from = from + 1;
    }
    let mut to: usize = chars.len();
    assert(chars@.subrange(from as int, to as int) =~= chars@.skip(from as int));
    assert(trimmed_start(chars@) == chars@.skip(from as int));
    while to > from && chars[to - 1].is_whitespace()
        invariant
            from <= to <= chars.len(),
            trimmed_end(chars@.skip(from as int)) == trimmed_end(
                chars@.subrange(from as int, to as int),
            ),
        decreases to,
    {
        assert(chars@.subrange(from as int, to as int).drop_last() =~= chars@.subrange(
            from as int,
            to - 1,
        ));
        to = to - 1;
    }
    string_from(&chars, from, to)
}

/// Whether `text` begins with `prefix`.
pub open spec fn begins_with(text: Seq<char>, prefix: Seq<char>) -> bool {
    prefix.len() <= text.len() && text.take(prefix.len() as int) == prefix
}

/// Whether `text` ends with `suffix`.
pub open spec fn finishes_with(text: Seq<char>, suffix: Seq<char>) -> bool {
    suffix.len() <= text.len() && text.skip(text.len() - suffix.len()) == suffix
}

/// What follows `prefix` in `text`, where `text` begins with it.
pub fn strip_prefix(text: &str, prefix: &str) -> (rest: Option<String>)
    ensures
        string_of(rest) == if begins_with(text@, prefix@) {
            Some(text@.skip(prefix@.len() as int))
        } else {
            None
        },
{
    let chars = chars_of(text);
    let start = chars_of(prefix);
    if start.len() > chars.len() {
        return None;
    }
    let mut index: usize = 0;
    while index < start.len()
        invariant
            index <= start.len() <= chars.len(),
            chars@ == text@,
            start@ == prefix@,
            chars@.take(index as int) == start@.take(index as int),
        decreases start.len() - index,
    {
        if chars[index] != start[index] {
            assert(text@.take(start.len() as int)[index as int] != prefix@[index as int]);
            return None;
        }
        assert(chars@.take(index + 1) =~= chars@.take(index as int).push(chars[index as int]));
        assert(start@.take(index + 1) =~= start@.take(index as int).push(start[index as int]));
        index = index + 1;
    }
    assert(start@.take(start.len() as int) =~= start@);
    let rest = string_from(&chars, start.len(), chars.len());
    assert(rest@ =~= text@.skip(prefix@.len() as int));
    Some(rest)
}

/// Whether `text` begins with `prefix`.
pub fn starts_with(text: &str, prefix: &str) -> (answer: bool)
    ensures
        answer == begins_with(text@, prefix@),
{
    strip_prefix(text, prefix).is_some()
}

/// A text of at most `limit` characters: the whole text where it is short
/// enough, else its first `limit` characters and an ellipsis.
pub open spec fn truncated(text: Seq<char>, limit: nat) -> Seq<char> {
    if text.len() <= limit {
        text
    } else {
        text.take(limit as int).push('…')
    }
}

/// Shortens a text for a message.
pub fn truncate(value: &str, limit: usize) -> (shortened: String)
    ensures
        shortened@ == truncated(value@, limit as nat),
{
    let chars = chars_of(value);
    if chars.len() <= limit {
        return value.to_owned();
    }
    let mut output = string_from(&chars, 0, limit);
    output.push('…');
    assert(output@ =~= value@.take(limit as int).push('…'));
    output
}

/// The decimal digits of a number.
pub open spec fn decimal(value: nat) -> Seq<char>
    decreases value,
{
    if value < 10 {
        seq![digit(value)]
    } else {
        decimal(value / 10).push(digit(value % 10))
    }
}

/// The character of a digit.
pub open spec fn digit(value: nat) -> char {
    (('0' as u32) + value) as char
}

/// The character of a digit.
fn digit_char(value: u128) -> (c: char)
    requires
        value < 10,
    ensures
        c == digit(value as nat),
{
    match value {
        0 => '0',
        1 => '1',
        2 => '2',
        3 => '3',
        4 => '4',
        5 => '5',
        6 => '6',
        7 => '7',
        8 => '8',
        _ => '9',
    }
}

/// A number in decimal notation.
pub fn decimal_text(value: u128) -> (text: String)
    ensures
        text@ == decimal(value as nat),
    decreases value,
{
    let mut text = if value < 10 {
        String::new()
    } else {
        decimal_text(value / 10)
    };
    text.push(digit_char(value % 10));
    assert(text@ =~= decimal(value as nat));
    text
}

/// The texts one after the other, with `separator` between two neighbours.
pub open spec fn joined(parts: Seq<Seq<char>>, separator: Seq<char>) -> Seq<char>
    decreases parts.len(),
{
    if parts.len() == 0 {
        Seq::empty()
    } else if parts.len() == 1 {
        parts[0]
    } else {
        joined(parts.drop_last(), separator) + separator + parts.last()
    }
}

/// The texts of a list of strings.
pub open spec fn texts(strings: Seq<String>) -> Seq<Seq<char>> {
    strings.map_values(|string: String| string@)
}

/// Joins strings with a separator between two neighbours.
pub fn join(parts: &Vec<String>, separator: &str) -> (text: String)
    ensures
        text@ == joined(texts(parts@), separator@),
{
    let mut text = String::new();
    for index in 0..parts.len()
        invariant
            text@ == joined(texts(parts@.take(index as int)), separator@),
    {
        if index > 0 {
            text.append(separator);
        }
        text.append(parts[index].as_str());
        let ghost now = texts(parts@.take(index + 1));
        assert(now.drop_last() =~= texts(parts@.take(index as int)));
        assert(now.last() == parts[index as int]@);
        assert(text@ =~= joined(now, separator@));
    }
    assert(parts@.take(parts.len() as int) =~= parts@);
    text
}

/// Two strings, one after the other.
pub fn concat(first: &str, second: &str) -> (text: String)
    ensures
        text@ == first@ + second@,
{
    let mut text = first.to_owned();
    text.append(second);
    text
}

/// The lines of a text, without the line feeds between them.
pub open spec fn lines_of(text: Seq<char>) -> Seq<Seq<char>>
    decreases text.len(),
{
    if text.len() == 0 {
        seq![Seq::empty()]
    } else {
        let lines = lines_of(text.drop_last());
        if text.last() == '\n' {
            lines.push(Seq::empty())
        } else {
            lines.drop_last().push(lines.last().push(text.last()))
        }
    }
}

/// The lines of a text.
pub fn split_lines(text: &str) -> (lines: Vec<String>)
    ensures
        texts(lines@) == lines_of(text@),
{
    let chars = chars_of(text);
    let mut lines: Vec<String> = Vec::new();
    let mut line = String::new();
    assert(texts(lines@).push(line@) =~= lines_of(chars@.take(0)));
    for index in 0..chars.len()
        invariant
            texts(lines@).push(line@) == lines_of(chars@.take(index as int)),
    {
        let c = chars[index];
        proof {
            assert(chars@.take(index + 1).drop_last() =~= chars@.take(index as int));
            assert(chars@.take(index + 1).last() == c);
            assert(texts(lines@).push(line@).drop_last() =~= texts(lines@));
        }
        if c == '\n' {
            let mut done = String::new();
            std::mem::swap(&mut done, &mut line);
            assert(texts(lines@.push(done)) =~= texts(lines@).push(done@));
            lines.push(done);
        } else {
            line.push(c);
        }
    }
    assert(chars@.take(chars.len() as int) =~= chars@);
    assert(texts(lines@.push(line)) =~= texts(lines@).push(line@));
    lines.push(line);
    lines
}

/// An ASCII letter in lower case; any other character as it is.
pub open spec fn lowered_char(c: char) -> char {
    if 'A' <= c <= 'Z' {
        (c as u32 + 32) as char
    } else {
        c
    }
}

/// The text with its ASCII letters in lower case.
pub open spec fn lowered(text: Seq<char>) -> Seq<char> {
    text.map_values(|c: char| lowered_char(c))
}

/// An ASCII letter in lower case; any other character as it is.
fn lower_char(c: char) -> (lower: char)
    ensures
        lower == lowered_char(c),
{
    match c {
        'A' => 'a',
        'B' => 'b',
        'C' => 'c',
        'D' => 'd',
        'E' => 'e',
        'F' => 'f',
        'G' => 'g',
        'H' => 'h',
        'I' => 'i',
        'J' => 'j',
        'K' => 'k',
        'L' => 'l',
        'M' => 'm',
        'N' => 'n',
        'O' => 'o',
        'P' => 'p',
        'Q' => 'q',
        'R' => 'r',
        'S' => 's',
        'T' => 't',
        'U' => 'u',
        'V' => 'v',
        'W' => 'w',
        'X' => 'x',
        'Y' => 'y',
        'Z' => 'z',
        other => other,
    }
}

/// The text with its ASCII letters in lower case.
pub fn lower(text: &str) -> (lower: String)
    ensures
        lower@ == lowered(text@),
{
    let chars = chars_of(text);
    let mut lower = String::new();
    for index in 0..chars.len()
        invariant
            lower@ == lowered(chars@.take(index as int)),
    {
        lower.push(lower_char(chars[index]));
        assert(lower@ =~= lowered(chars@.take(index + 1)));
    }
    assert(chars@.take(chars.len() as int) =~= chars@);
    lower
}

/// Whether two texts are the same but for the case of ASCII letters.
pub fn same_ignoring_case(left: &str, right: &str) -> (same: bool)
    ensures
        same == (lowered(left@) == lowered(right@)),
{
    let left = lower(left);
    let right = lower(right);
    same_text(left.as_str(), right.as_str())
}

/// The text without the given characters at its end.
pub open spec fn without_trailing(text: Seq<char>, c: char) -> Seq<char>
    decreases text.len(),
{
    if text.len() > 0 && text.last() == c {
        without_trailing(text.drop_last(), c)
    } else {
        text
    }
}

/// The text without the given characters at its end.
pub fn trim_end_char(text: &str, c: char) -> (trimmed: String)
    ensures
        trimmed@ == without_trailing(text@, c),
{
    let chars = chars_of(text);
    let mut to: usize = chars.len();
    assert(chars@.take(to as int) =~= chars@);
    while to > 0 && chars[to - 1] == c
        invariant
            to <= chars.len(),
            without_trailing(chars@, c) == without_trailing(chars@.take(to as int), c),
        decreases to,
    {
        assert(chars@.take(to as int).drop_last() =~= chars@.take(to - 1));
        to = to - 1;
    }
    let trimmed = string_from(&chars, 0, to);
    assert(trimmed@ =~= chars@.take(to as int));
    trimmed
}

/// What stands before the first of the given characters; the whole text
/// where there is none.
pub open spec fn before_char(text: Seq<char>, c: char) -> Seq<char>
    decreases text.len(),
{
    if text.len() == 0 || text[0] == c {
        Seq::empty()
    } else {
        seq![text[0]] + before_char(text.drop_first(), c)
    }
}

/// What stands before the first of the given characters.
pub fn until_char(text: &str, c: char) -> (start: String)
    ensures
        start@ == before_char(text@, c),
{
    let chars = chars_of(text);
    let mut start = String::new();
    let mut index: usize = 0;
    assert(chars@.skip(0) =~= chars@);
    assert(before_char(chars@, c) =~= start@ + before_char(chars@.skip(0), c));
    while index < chars.len() && chars[index] != c
        invariant
            index <= chars.len(),
            before_char(chars@, c) == start@ + before_char(chars@.skip(index as int), c),
        decreases chars.len() - index,
    {
        proof {
            let rest = chars@.skip(index as int);
            assert(rest.drop_first() =~= chars@.skip(index + 1));
            assert(start@ + (seq![rest[0]] + before_char(rest.drop_first(), c)) =~= start@.push(
                chars[index as int],
            ) + before_char(chars@.skip(index + 1), c));
        }
        start.push(chars[index]);
        index = index + 1;
    }
    assert(start@ + Seq::<char>::empty() =~= start@);
    start
}

/// The text with every occurrence of `needle`, from the left, written as
/// `with`. Nothing is no occurrence.
pub open spec fn replaced(text: Seq<char>, needle: Seq<char>, with: Seq<char>) -> Seq<char>
    decreases text.len(),
{
    if needle.len() == 0 || text.len() < needle.len() {
        text
    } else if begins_with(text, needle) {
        with + replaced(text.skip(needle.len() as int), needle, with)
    } else {
        seq![text[0]] + replaced(text.skip(1), needle, with)
    }
}

/// Whether `needle` stands at a place of a text.
pub open spec fn occurs_at(text: Seq<char>, needle: Seq<char>, at: int) -> bool {
    0 <= at && at + needle.len() <= text.len() && text.subrange(at, at + needle.len()) == needle
}

/// Whether `needle` stands anywhere in a text.
pub open spec fn occurs(text: Seq<char>, needle: Seq<char>) -> bool {
    exists|at: int| #[trigger] occurs_at(text, needle, at)
}

/// Whether no two occurrences of `needle` in a text share a character.
pub open spec fn apart(text: Seq<char>, needle: Seq<char>) -> bool {
    forall|i: int, j: int|
        #[trigger] occurs_at(text, needle, i) && #[trigger] occurs_at(text, needle, j) && i < j
            ==> i + needle.len() <= j
}

/// Whether `needle`, moved by `by` against `mark`, has another character than
/// `mark` at some place that both cover.
pub open spec fn differ(needle: Seq<char>, mark: Seq<char>, by: int) -> bool {
    exists|i: int|
        0 <= i < needle.len() && 0 <= by + i < mark.len() && #[trigger] needle[i] != mark[by + i]
}

/// Whether `needle` cannot cover any part of `mark`, wherever it stands.
pub open spec fn clash(needle: Seq<char>, mark: Seq<char>) -> bool {
    forall|by: int| -needle.len() < by < mark.len() ==> #[trigger] differ(needle, mark, by)
}

/// The end of `found` stands at the start of a text in which `needle` was
/// replaced only where it stands there in the text itself.
proof fn lemma_start_is_kept(
    text: Seq<char>,
    needle: Seq<char>,
    found: Seq<char>,
    with: (Seq<char>, Seq<char>, Seq<char>),
    end: Seq<char>,
)
    requires
        needle.len() > 0,
        with.1.len() > 0,
        begins_with(needle, with.0),
        clash(found, with.1),
        end.len() <= found.len(),
        end == found.skip(found.len() - end.len()),
        begins_with(replaced(text, needle, with.0 + with.1 + with.2), end),
    ensures
        begins_with(text, end),
    decreases text.len(),
{
    let whole = with.0 + with.1 + with.2;
    let result = replaced(text, needle, whole);
    if end.len() == 0 {
        assert(text.take(0) =~= end);
    } else if text.len() < needle.len() {
    } else if begins_with(text, needle) {
        let rest = replaced(text.skip(needle.len() as int), needle, whole);
        assert(result == whole + rest);
        if end.len() > with.0.len() {
            let by = -(found.len() - end.len() + with.0.len());
            assert(differ(found, with.1, by));
            let i = choose|i: int|
                0 <= i < found.len() && 0 <= by + i < with.1.len() && #[trigger] found[i]
                    != with.1[by + i];
            let place = i - (found.len() - end.len());
            assert(end[place] == found[i]);
            assert(result.take(end.len() as int)[place] == result[place]);
            assert(result[place] == with.1[by + i]);
            assert(false);
        } else {
            assert forall|i: int| 0 <= i < end.len() implies text[i] == end[i] by {
                assert(result.take(end.len() as int)[i] == result[i]);
                assert(needle.take(with.0.len() as int)[i] == needle[i]);
                assert(text.take(needle.len() as int)[i] == text[i]);
            }
            assert(text.take(end.len() as int) =~= end);
        }
    } else {
        let rest = replaced(text.skip(1), needle, whole);
        assert(result == seq![text[0]] + rest);
        let shorter = end.skip(1);
        assert(shorter =~= found.skip(found.len() - shorter.len()));
        assert(rest.take(shorter.len() as int) =~= shorter) by {
            assert forall|i: int| 0 <= i < shorter.len() implies rest[i] == shorter[i] by {
                assert(result.take(end.len() as int)[i + 1] == result[i + 1]);
            }
        }
        lemma_start_is_kept(text.skip(1), needle, found, with, shorter);
        assert(result.take(end.len() as int)[0] == result[0]);
        assert forall|i: int| 0 <= i < end.len() implies text[i] == end[i] by {
            if i > 0 {
                assert(text.skip(1).take(shorter.len() as int)[i - 1] == text[i]);
                assert(shorter[i - 1] == end[i]);
            }
        }
        assert(text.take(end.len() as int) =~= end);
    }
}

proof fn lemma_occurs_later(start: Seq<char>, rest: Seq<char>, needle: Seq<char>, at: int)
    requires
        at >= start.len(),
        occurs_at(start + rest, needle, at),
    ensures
        occurs_at(rest, needle, at - start.len()),
{
    let place = at - start.len();
    assert(rest.subrange(place, place + needle.len()) =~= (start + rest).subrange(
        at,
        at + needle.len(),
    ));
}

proof fn lemma_occurs_in_rest(text: Seq<char>, by: int, needle: Seq<char>, at: int)
    requires
        0 <= by <= text.len(),
        occurs_at(text.skip(by), needle, at),
    ensures
        occurs_at(text, needle, by + at),
{
    assert(text.subrange(by + at, by + at + needle.len()) =~= text.skip(by).subrange(
        at,
        at + needle.len(),
    ));
}

/// What is replaced by the start and the end of itself, around a mark that it
/// clashes with, stands nowhere in the result, where its occurrences do not
/// overlap. Without that end they may.
pub proof fn lemma_replaced_is_gone(
    text: Seq<char>,
    needle: Seq<char>,
    with: (Seq<char>, Seq<char>, Seq<char>),
)
    requires
        with.1.len() > 0,
        with.0.len() < needle.len(),
        with.2.len() < needle.len(),
        begins_with(needle, with.0),
        finishes_with(needle, with.2),
        clash(needle, with.1),
        with.2.len() > 0 ==> apart(text, needle),
    ensures
        !occurs(replaced(text, needle, with.0 + with.1 + with.2), needle),
    decreases text.len(), 1int,
{
    let whole = with.0 + with.1 + with.2;
    let result = replaced(text, needle, whole);
    assert forall|at: int| !(#[trigger] occurs_at(result, needle, at)) by {
        if occurs_at(result, needle, at) {
            if text.len() < needle.len() {
            } else if begins_with(text, needle) {
                lemma_gone_after_match(text, needle, with, at);
            } else {
                let rest = replaced(text.skip(1), needle, whole);
                assert(result == seq![text[0]] + rest);
                if at >= 1 {
                    lemma_occurs_later(seq![text[0]], rest, needle, at);
                    lemma_apart_in_rest(text, 1, needle);
                    lemma_replaced_is_gone(text.skip(1), needle, with);
                } else {
                    assert(result.take(needle.len() as int) =~= result.subrange(
                        0,
                        needle.len() as int,
                    ));
                    assert(needle.skip(0) =~= needle);
                    lemma_start_is_kept(text, needle, needle, with, needle);
                }
            }
        }
    }
}

proof fn lemma_apart_in_rest(text: Seq<char>, by: int, needle: Seq<char>)
    requires
        0 <= by <= text.len(),
    ensures
        apart(text, needle) ==> apart(text.skip(by), needle),
{
    if apart(text, needle) {
        assert forall|i: int, j: int|
            #[trigger] occurs_at(text.skip(by), needle, i) && #[trigger] occurs_at(
                text.skip(by),
                needle,
                j,
            ) && i < j implies i + needle.len() <= j by {
            lemma_occurs_in_rest(text, by, needle, i);
            lemma_occurs_in_rest(text, by, needle, j);
        }
    }
}

proof fn lemma_gone_after_match(
    text: Seq<char>,
    needle: Seq<char>,
    with: (Seq<char>, Seq<char>, Seq<char>),
    at: int,
)
    requires
        with.1.len() > 0,
        with.0.len() < needle.len(),
        with.2.len() < needle.len(),
        begins_with(needle, with.0),
        finishes_with(needle, with.2),
        clash(needle, with.1),
        with.2.len() > 0 ==> apart(text, needle),
        begins_with(text, needle),
    ensures
        !occurs_at(replaced(text, needle, with.0 + with.1 + with.2), needle, at),
    decreases text.len(), 0int,
{
    let whole = with.0 + with.1 + with.2;
    let left = text.skip(needle.len() as int);
    let rest = replaced(left, needle, whole);
    let result = replaced(text, needle, whole);
    assert(result == whole + rest);
    let mark_end = with.0.len() + with.1.len();
    if !occurs_at(result, needle, at) {
    } else if at >= whole.len() {
        lemma_occurs_later(whole, rest, needle, at);
        lemma_apart_in_rest(text, needle.len() as int, needle);
        lemma_replaced_is_gone(left, needle, with);
        assert(occurs(rest, needle));
    } else if at < mark_end {
        let by = at - with.0.len();
        assert(differ(needle, with.1, by));
        let i = choose|i: int|
            0 <= i < needle.len() && 0 <= by + i < with.1.len() && #[trigger] needle[i]
                != with.1[by + i];
        assert(result.subrange(at, at + needle.len())[i] == result[at + i]);
        assert(result[at + i] == with.1[by + i]);
    } else {
        let begun = at - mark_end;
        let covered = with.2.len() - begun;
        let end = needle.skip(covered);
        assert(rest.take(end.len() as int) =~= end) by {
            assert forall|i: int| 0 <= i < end.len() implies rest[i] == end[i] by {
                assert(result.subrange(at, at + needle.len())[covered + i] == result[at + covered
                    + i]);
            }
        }
        assert(end =~= needle.skip(needle.len() - end.len()));
        lemma_start_is_kept(left, needle, needle, with, end);
        let place = needle.len() - covered;
        assert(text.subrange(place, place + needle.len()) =~= needle) by {
            assert forall|i: int| 0 <= i < needle.len() implies text[place + i] == needle[i] by {
                assert(text.take(needle.len() as int) == needle);
                if i < covered {
                    assert(result.subrange(at, at + needle.len())[i] == result[at + i]);
                    assert(result[at + i] == with.2[begun + i]);
                    assert(needle.skip(needle.len() - with.2.len())[begun + i] == needle[place
                        + i]);
                    assert(text.take(needle.len() as int)[place + i] == text[place + i]);
                } else {
                    assert(left.take(end.len() as int)[i - covered] == left[i - covered]);
                    assert(left[i - covered] == text[place + i]);
                }
            }
        }
        assert(text.subrange(0, needle.len() as int) =~= text.take(needle.len() as int));
        assert(occurs_at(text, needle, 0));
        assert(occurs_at(text, needle, place));
    }
}

/// What stands nowhere in a text does not come up where something else is
/// replaced by a mark that it clashes with.
pub proof fn lemma_stays_gone(
    text: Seq<char>,
    needle: Seq<char>,
    mark: Seq<char>,
    found: Seq<char>,
)
    requires
        mark.len() > 0,
        found.len() > 0,
        clash(found, mark),
        !occurs(text, found),
    ensures
        !occurs(replaced(text, needle, mark), found),
    decreases text.len(),
{
    let nothing = Seq::<char>::empty();
    let result = replaced(text, needle, mark);
    assert forall|at: int| !(#[trigger] occurs_at(result, found, at)) by {
        if occurs_at(result, found, at) {
            if needle.len() == 0 || text.len() < needle.len() {
                assert(result == text);
            } else if begins_with(text, needle) {
                let left = text.skip(needle.len() as int);
                let rest = replaced(left, needle, mark);
                assert(result == mark + rest);
                if at >= mark.len() {
                    lemma_occurs_later(mark, rest, found, at);
                    assert forall|i: int| !(#[trigger] occurs_at(left, found, i)) by {
                        if occurs_at(left, found, i) {
                            lemma_occurs_in_rest(text, needle.len() as int, found, i);
                        }
                    }
                    lemma_stays_gone(left, needle, mark, found);
                } else {
                    assert(differ(found, mark, at));
                    let i = choose|i: int|
                        0 <= i < found.len() && 0 <= at + i < mark.len() && #[trigger] found[i]
                            != mark[at + i];
                    assert(result.subrange(at, at + found.len())[i] == result[at + i]);
                }
            } else {
                let left = text.skip(1);
                let rest = replaced(left, needle, mark);
                assert(result == seq![text[0]] + rest);
                if at >= 1 {
                    lemma_occurs_later(seq![text[0]], rest, found, at);
                    assert forall|i: int| !(#[trigger] occurs_at(left, found, i)) by {
                        if occurs_at(left, found, i) {
                            lemma_occurs_in_rest(text, 1, found, i);
                        }
                    }
                    lemma_stays_gone(left, needle, mark, found);
                } else {
                    assert(nothing + mark + nothing =~= mark);
                    assert(needle.take(0) =~= nothing);
                    assert(found.skip(0) =~= found);
                    assert(result.take(found.len() as int) =~= result.subrange(
                        0,
                        found.len() as int,
                    ));
                    lemma_start_is_kept(text, needle, found, (nothing, mark, nothing), found);
                    assert(text.subrange(0, found.len() as int) =~= text.take(
                        found.len() as int,
                    ));
                    assert(occurs_at(text, found, 0));
                }
            }
        }
    }
}

pub(crate) fn stands_at(chars: &Vec<char>, at: usize, needle: &Vec<char>) -> (found: bool)
    requires
        at <= chars.len(),
    ensures
        found == begins_with(chars@.skip(at as int), needle@),
{
    if chars.len() - at < needle.len() {
        return false;
    }
    let ghost rest = chars@.skip(at as int);
    for index in 0..needle.len()
        invariant
            at + needle.len() <= chars.len(),
            rest == chars@.skip(at as int),
            forall|i: int| 0 <= i < index ==> rest[i] == #[trigger] needle@[i],
    {
        assert(rest[index as int] == chars@[at + index]);
        if chars[at + index] != needle[index] {
            assert(rest.take(needle.len() as int)[index as int] != needle@[index as int]);
            return false;
        }
    }
    assert(rest.take(needle.len() as int) =~= needle@);
    true
}

/// The text with every occurrence of `needle`, from the left, written as
/// `with`.
pub fn replace(text: &str, needle: &str, with: &str) -> (changed: String)
    ensures
        changed@ == replaced(text@, needle@, with@),
{
    let chars = chars_of(text);
    let needle = chars_of(needle);
    let mut changed = String::new();
    if needle.len() == 0 {
        return text.to_owned();
    }
    let mut at: usize = 0;
    assert(chars@.skip(0) =~= chars@);
    assert(changed@ + replaced(chars@, needle@, with@) =~= replaced(chars@, needle@, with@));
    while at < chars.len()
        invariant
            at <= chars.len(),
            needle.len() > 0,
            changed@ + replaced(chars@.skip(at as int), needle@, with@) == replaced(
                chars@,
                needle@,
                with@,
            ),
        decreases chars.len() - at,
    {
        let ghost before = changed@;
        let ghost rest = chars@.skip(at as int);
        if stands_at(&chars, at, &needle) {
            changed.append(with);
            assert(rest.skip(needle.len() as int) =~= chars@.skip(at + needle.len()));
            assert(before + (with@ + replaced(rest.skip(needle.len() as int), needle@, with@))
                =~= changed@ + replaced(rest.skip(needle.len() as int), needle@, with@));
            at = at + needle.len();
        } else {
            changed.push(chars[at]);
            assert(rest.skip(1) =~= chars@.skip(at + 1));
            assert(replaced(rest, needle@, with@) == seq![rest[0]] + replaced(
                rest.skip(1),
                needle@,
                with@,
            )) by {
                if rest.len() < needle.len() {
                    assert(seq![rest[0]] + rest.skip(1) =~= rest);
                }
            }
            assert(before + (seq![rest[0]] + replaced(rest.skip(1), needle@, with@)) =~= changed@
                + replaced(rest.skip(1), needle@, with@));
            at = at + 1;
        }
    }
    assert(chars@.skip(at as int).len() == 0);
    assert(changed@ + Seq::<char>::empty() =~= changed@);
    assert(replaced(chars@.skip(at as int), needle@, with@) =~= Seq::<char>::empty());
    changed
}

/// Whether a text comes before another one in the order of their characters.
pub open spec fn precedes(one: Seq<char>, other: Seq<char>) -> bool
    decreases one.len(),
{
    if other.len() == 0 {
        false
    } else if one.len() == 0 {
        true
    } else if one[0] == other[0] {
        precedes(one.drop_first(), other.drop_first())
    } else {
        one[0] < other[0]
    }
}

/// Of two different texts one comes before the other, and not the other way
/// round.
pub proof fn lemma_precedes_total(one: Seq<char>, other: Seq<char>)
    ensures
        one == other || precedes(one, other) || precedes(other, one),
        !(precedes(one, other) && precedes(other, one)),
        !precedes(one, one),
    decreases one.len(),
{
    if one.len() > 0 && other.len() > 0 && one[0] == other[0] {
        lemma_precedes_total(one.drop_first(), other.drop_first());
        if one.drop_first() == other.drop_first() {
            assert(one =~= seq![one[0]] + one.drop_first());
            assert(other =~= seq![other[0]] + other.drop_first());
        }
    } else if one.len() == 0 && other.len() == 0 {
        assert(one =~= other);
    } else if one.len() > 0 {
        lemma_precedes_total(one.drop_first(), one.drop_first());
    }
    if one.len() > 0 {
        lemma_precedes_total(one.drop_first(), one.drop_first());
    }
}

/// What comes before a text comes before whatever that one comes before.
pub proof fn lemma_precedes_transitive(one: Seq<char>, other: Seq<char>, third: Seq<char>)
    requires
        precedes(one, other),
        precedes(other, third),
    ensures
        precedes(one, third),
    decreases one.len(),
{
    if one.len() > 0 && one[0] == other[0] && other[0] == third[0] {
        lemma_precedes_transitive(one.drop_first(), other.drop_first(), third.drop_first());
    }
}

/// Whether a text comes before another one in the order of their characters.
pub fn comes_before(one: &str, other: &str) -> (answer: bool)
    ensures
        answer == precedes(one@, other@),
{
    let left = chars_of(one);
    let right = chars_of(other);
    let mut at: usize = 0;
    assert(left@.skip(0) =~= left@);
    assert(right@.skip(0) =~= right@);
    while at < left.len() && at < right.len()
        invariant
            at <= left.len(),
            at <= right.len(),
            precedes(one@, other@) == precedes(left@.skip(at as int), right@.skip(at as int)),
        decreases left.len() - at,
    {
        assert(left@.skip(at as int)[0] == left@[at as int]);
        assert(right@.skip(at as int)[0] == right@[at as int]);
        if left[at] != right[at] {
            return left[at] < right[at];
        }
        assert(left@.skip(at as int).drop_first() =~= left@.skip(at + 1));
        assert(right@.skip(at as int).drop_first() =~= right@.skip(at + 1));
        at = at + 1;
    }
    at < right.len()
}

/// The bytes of a text in UTF-8.
pub open spec fn bytes_of_text(text: Seq<char>) -> Seq<u8> {
    vstd::utf8::encode_utf8(text)
}

/// The bytes of a text in UTF-8.
pub fn text_bytes(text: &str) -> (bytes: Vec<u8>)
    ensures
        bytes@ == bytes_of_text(text@),
{
    text.as_bytes_vec()
}

/// The text that bytes are in UTF-8, where they are one.
pub open spec fn utf8_text_of(bytes: Seq<u8>) -> Option<Seq<char>> {
    if vstd::utf8::valid_utf8(bytes) {
        Some(vstd::utf8::decode_utf8(bytes))
    } else {
        None
    }
}

/// `std::string::String::from_utf8`: the text that bytes are in UTF-8, where
/// they are one.
#[verifier::external_body]
pub(crate) fn utf8_text(bytes: &[u8]) -> (text: Option<String>)
    ensures
        string_of(text) == utf8_text_of(bytes@),
{
    String::from_utf8(bytes.to_vec()).ok()
}

/// `count` times the same character.
pub open spec fn repeated(c: char, count: nat) -> Seq<char> {
    Seq::new(count, |i: int| c)
}

/// `count` times the same character.
pub fn repeat(c: char, count: usize) -> (text: String)
    ensures
        text@ == repeated(c, count as nat),
{
    let mut text = String::new();
    assert(text@ =~= repeated(c, 0));
    for index in 0..count
        invariant
            text@ == repeated(c, index as nat),
    {
        text.push(c);
        assert(text@ =~= repeated(c, (index + 1) as nat));
    }
    text
}

} // verus!
