//! What the operations on text do, on all texts.

use crate::text::{
    before_char, begins_with, decimal, digit, joined, lines_of, lowered, lowered_char, occurs,
    occurs_at, precedes, repeated, replaced, truncated,
};
use vstd::prelude::*;

verus! {

// ---------------------------------------------------------------------------
// Numbers
// ---------------------------------------------------------------------------

/// The number that a character stands for, as a digit.
pub open spec fn digit_value(c: char) -> nat {
    if '0' <= c <= '9' {
        (c as u32 - '0' as u32) as nat
    } else {
        10
    }
}

/// The number that a row of digits stands for.
pub open spec fn number_of(digits: Seq<char>) -> nat
    decreases digits.len(),
{
    if digits.len() == 0 {
        0
    } else {
        number_of(digits.drop_last()) * 10 + digit_value(digits.last())
    }
}

proof fn lemma_digit(value: nat)
    requires
        value < 10,
    ensures
        digit_value(digit(value)) == value,
        '0' <= digit(value) <= '9',
        digit(value) == '0' ==> value == 0,
{
    let code = ('0' as u32 + value) as u32;
    assert(digit(value) as u32 == code);
}

/// A number is written in digits that stand for it, without a zero before them.
pub proof fn law_decimal_stands_for_the_number(value: nat)
    ensures
        number_of(decimal(value)) == value,
        decimal(value).len() > 0,
        forall|i: int| 0 <= i < decimal(value).len() ==> '0' <= #[trigger] decimal(value)[i] <= '9',
        value > 0 ==> decimal(value)[0] != '0',
    decreases value,
{
    if value < 10 {
        lemma_digit(value);
        let one = seq![digit(value)];
        assert(one.drop_last() =~= Seq::<char>::empty());
        assert(number_of(Seq::<char>::empty()) == 0);
        assert(number_of(one) == number_of(one.drop_last()) * 10 + digit_value(one.last()));
    } else {
        law_decimal_stands_for_the_number(value / 10);
        lemma_digit(value % 10);
        let more = decimal(value / 10);
        let all = more.push(digit(value % 10));
        assert(all.drop_last() =~= more);
        assert(number_of(all) == number_of(more) * 10 + value % 10);
        assert forall|i: int| 0 <= i < all.len() implies '0' <= #[trigger] all[i] <= '9' by {
            if i < more.len() {
                assert(all[i] == more[i]);
            }
        }
    }
}

/// Two numbers that are written alike are the same.
pub proof fn law_decimals_differ(one: nat, other: nat)
    requires
        decimal(one) == decimal(other),
    ensures
        one == other,
{
    law_decimal_stands_for_the_number(one);
    law_decimal_stands_for_the_number(other);
}

// ---------------------------------------------------------------------------
// Rows of texts
// ---------------------------------------------------------------------------

/// Texts are joined in their order, with the separator between two of them and
/// nowhere else.
pub proof fn law_texts_are_joined(
    parts: Seq<Seq<char>>,
    part: Seq<char>,
    separator: Seq<char>,
)
    ensures
        joined(Seq::empty(), separator) == Seq::<char>::empty(),
        joined(seq![part], separator) == part,
        parts.len() > 0 ==> joined(parts.push(part), separator) == joined(parts, separator)
            + separator + part,
{
    assert(parts.push(part).drop_last() =~= parts);
}

/// Every one of the texts that are joined occurs in what comes out.
pub proof fn law_joined_texts_occur(parts: Seq<Seq<char>>, separator: Seq<char>, i: int)
    requires
        0 <= i < parts.len(),
    ensures
        occurs(joined(parts, separator), parts[i]),
    decreases parts.len(),
{
    let all = joined(parts, separator);
    if parts.len() == 1 {
        assert(all.subrange(0, all.len() as int) =~= all);
        assert(occurs_at(all, parts[i], 0));
    } else if i == parts.len() - 1 {
        let at = all.len() - parts[i].len();
        assert(all.subrange(at, all.len() as int) =~= parts[i]);
        assert(occurs_at(all, parts[i], at));
    } else {
        let rest = parts.drop_last();
        assert(rest[i] == parts[i]);
        law_joined_texts_occur(rest, separator, i);
        let earlier = joined(rest, separator);
        let at = choose|at: int| #[trigger] occurs_at(earlier, parts[i], at);
        assert(all.subrange(at, at + parts[i].len()) =~= earlier.subrange(
            at,
            at + parts[i].len(),
        ));
        assert(occurs_at(all, parts[i], at));
    }
}

/// The lines of a text, joined again, are the text, and no line holds a line end.
pub proof fn law_lines_make_up_the_text(text: Seq<char>)
    ensures
        lines_of(text).len() > 0,
        joined(lines_of(text), seq!['\n']) == text,
        forall|i: int| 0 <= i < lines_of(text).len() ==> !(#[trigger] lines_of(text)[i]).contains(
            '\n',
        ),
    decreases text.len(),
{
    let end = seq!['\n'];
    let lines = lines_of(text);
    if text.len() == 0 {
        assert(joined(lines, end) =~= text);
    } else {
        let rest = text.drop_last();
        law_lines_make_up_the_text(rest);
        let earlier = lines_of(rest);
        let c = text.last();
        if c == '\n' {
            assert(lines.drop_last() =~= earlier);
            assert(joined(lines, end) =~= text);
        } else {
            let grown = earlier.last().push(c);
            assert(lines =~= earlier.drop_last().push(grown));
            assert(lines.drop_last() =~= earlier.drop_last());
            assert(earlier.drop_last().push(earlier.last()) =~= earlier);
            assert(joined(lines, end) =~= joined(earlier, end).push(c));
            assert(joined(lines, end) =~= text);
            assert forall|i: int| 0 <= i < lines.len() implies !(#[trigger] lines[i]).contains(
                '\n',
            ) by {
                if i < lines.len() - 1 {
                    assert(lines[i] == earlier[i]);
                } else {
                    let before = earlier[earlier.len() - 1];
                    assert(!before.contains('\n'));
                    assert(lines[i] == before.push(c));
                    if lines[i].contains('\n') {
                        let k = choose|k: int|
                            0 <= k < lines[i].len() && #[trigger] lines[i][k] == '\n';
                        assert(k < before.len());
                        assert(before[k] == '\n');
                    }
                }
            }
        }
    }
}

// ---------------------------------------------------------------------------
// Characters
// ---------------------------------------------------------------------------

/// Lowering a text turns each of the 26 letters into its small form, and leaves
/// every other character.
pub proof fn law_letters_are_lowered(text: Seq<char>, i: int)
    requires
        0 <= i < text.len(),
    ensures
        lowered(text).len() == text.len(),
        'A' <= text[i] <= 'Z' ==> 'a' <= lowered(text)[i] <= 'z' && lowered(text)[i] as u32
            - 'a' as u32 == text[i] as u32 - 'A' as u32,
        !('A' <= text[i] <= 'Z') ==> lowered(text)[i] == text[i],
        lowered(lowered(text)) == lowered(text),
{
    assert(lowered(text)[i] == lowered_char(text[i]));
    if 'A' <= text[i] <= 'Z' {
        let code = (text[i] as u32 + 32) as u32;
        assert(lowered_char(text[i]) as u32 == code);
    }
    assert forall|k: int| 0 <= k < text.len() implies lowered_char(lowered_char(#[trigger] text[k]))
        == lowered_char(text[k]) by {
        if 'A' <= text[k] <= 'Z' {
            let code = (text[k] as u32 + 32) as u32;
            assert(lowered_char(text[k]) as u32 == code);
        }
    }
    assert(lowered(lowered(text)) =~= lowered(text));
}

/// What stands before a character is the beginning of the text, does not hold the
/// character, and ends where the character or the end of the text comes.
pub proof fn law_text_before_a_character(text: Seq<char>, c: char)
    ensures
        begins_with(text, before_char(text, c)),
        !before_char(text, c).contains(c),
        before_char(text, c).len() < text.len() ==> text[before_char(text, c).len() as int] == c,
    decreases text.len(),
{
    let before = before_char(text, c);
    if text.len() > 0 && text[0] != c {
        let rest = text.drop_first();
        law_text_before_a_character(rest, c);
        let more = before_char(rest, c);
        assert(rest.take(more.len() as int) == more);
        assert(text.take(before.len() as int) =~= before) by {
            assert forall|k: int| 0 < k < before.len() implies text[k] == before[k] by {
                assert(rest[k - 1] == rest.take(more.len() as int)[k - 1]);
                assert(before[k] == more[k - 1]);
            }
        }
        if before.contains(c) {
            let k = choose|k: int| 0 <= k < before.len() && #[trigger] before[k] == c;
            assert(k > 0);
            assert(more[k - 1] == c);
        }
        if before.len() < text.len() {
            assert(rest[more.len() as int] == c);
        }
    } else {
        assert(text.take(0) =~= Seq::<char>::empty());
    }
}

/// A short text is shown whole. Of a long one the beginning is shown, with a mark
/// that there is more.
pub proof fn law_long_texts_are_cut(text: Seq<char>, limit: nat)
    ensures
        text.len() <= limit ==> truncated(text, limit) == text,
        text.len() > limit ==> truncated(text, limit).len() == limit + 1 && truncated(
            text,
            limit,
        ).last() == '…' && begins_with(text, truncated(text, limit).drop_last()),
{
    if text.len() > limit {
        assert(truncated(text, limit).drop_last() =~= text.take(limit as int));
    }
}

/// A character that is repeated stands everywhere.
pub proof fn law_repeated_character(c: char, count: nat, i: int)
    requires
        0 <= i < count,
    ensures
        repeated(c, count).len() == count,
        repeated(c, count)[i] == c,
{
}

// ---------------------------------------------------------------------------
// Replacing
// ---------------------------------------------------------------------------

/// A text that does not hold what is to be replaced stays.
pub proof fn law_nothing_to_replace(text: Seq<char>, needle: Seq<char>, with: Seq<char>)
    requires
        !occurs(text, needle),
    ensures
        replaced(text, needle, with) == text,
    decreases text.len(),
{
    if needle.len() > 0 && text.len() >= needle.len() {
        if begins_with(text, needle) {
            assert(text.subrange(0, needle.len() as int) =~= text.take(needle.len() as int));
            assert(occurs_at(text, needle, 0));
        }
        let rest = text.skip(1);
        if occurs(rest, needle) {
            let at = choose|at: int| #[trigger] occurs_at(rest, needle, at);
            assert(text.subrange(at + 1, at + 1 + needle.len()) =~= rest.subrange(
                at,
                at + needle.len(),
            ));
            assert(occurs_at(text, needle, at + 1));
        }
        law_nothing_to_replace(rest, needle, with);
        assert(seq![text[0]] + rest =~= text);
    }
}

/// The first place of what is to be replaced is replaced, what stands before it
/// stays, and the rest is treated alike.
pub proof fn law_first_place_is_replaced(
    before: Seq<char>,
    needle: Seq<char>,
    after: Seq<char>,
    with: Seq<char>,
)
    requires
        needle.len() > 0,
        forall|at: int|
            0 <= at < before.len() ==> !#[trigger] occurs_at(before + needle + after, needle, at),
    ensures
        replaced(before + needle + after, needle, with) == before + with + replaced(
            after,
            needle,
            with,
        ),
    decreases before.len(),
{
    let text = before + needle + after;
    if before.len() == 0 {
        assert(text.take(needle.len() as int) =~= needle);
        assert(text.skip(needle.len() as int) =~= after);
        assert(before + with + replaced(after, needle, with) =~= with + replaced(
            after,
            needle,
            with,
        ));
    } else {
        if begins_with(text, needle) {
            assert(text.subrange(0, needle.len() as int) =~= text.take(needle.len() as int));
            assert(occurs_at(text, needle, 0));
        }
        let rest = before.drop_first();
        let shorter = rest + needle + after;
        assert(text.skip(1) =~= shorter);
        assert forall|at: int| 0 <= at < rest.len() implies !#[trigger] occurs_at(
            shorter,
            needle,
            at,
        ) by {
            if occurs_at(shorter, needle, at) {
                assert(text.subrange(at + 1, at + 1 + needle.len()) =~= shorter.subrange(
                    at,
                    at + needle.len(),
                ));
                assert(occurs_at(text, needle, at + 1));
            }
        }
        law_first_place_is_replaced(rest, needle, after, with);
        assert(seq![text[0]] + (rest + with + replaced(after, needle, with)) =~= before + with
            + replaced(after, needle, with));
    }
}

// ---------------------------------------------------------------------------
// Order
// ---------------------------------------------------------------------------

/// One text comes before another where it has the smaller character at the first
/// place at which they differ, or is the shorter one where they do not.
pub proof fn law_first_difference_decides(one: Seq<char>, other: Seq<char>, at: int)
    requires
        0 <= at <= one.len(),
        at <= other.len(),
        one.take(at) == other.take(at),
        at == one.len() || at == other.len() || one[at] != other[at],
    ensures
        precedes(one, other) == (at < other.len() && (at == one.len() || one[at] < other[at])),
    decreases at,
{
    if at > 0 {
        assert(one[0] == one.take(at)[0]);
        assert(other[0] == other.take(at)[0]);
        let a = one.drop_first();
        let b = other.drop_first();
        assert(a.take(at - 1) =~= one.take(at).drop_first());
        assert(b.take(at - 1) =~= other.take(at).drop_first());
        law_first_difference_decides(a, b, at - 1);
    }
}

/// Of two texts that differ one comes before the other, and not the other before
/// the one; no text comes before itself.
pub proof fn law_texts_are_ordered(one: Seq<char>, other: Seq<char>)
    ensures
        !precedes(one, one),
        one != other ==> precedes(one, other) || precedes(other, one),
        !(precedes(one, other) && precedes(other, one)),
    decreases one.len(),
{
    if one.len() > 0 {
        law_texts_are_ordered(one.drop_first(), one.drop_first());
        if other.len() > 0 {
            law_texts_are_ordered(one.drop_first(), other.drop_first());
            if one != other && one[0] == other[0] {
                if one.drop_first() == other.drop_first() {
                    assert(one =~= seq![one[0]] + one.drop_first());
                    assert(other =~= seq![other[0]] + other.drop_first());
                }
            }
        }
    } else if other.len() == 0 {
        assert(one =~= other);
    }
}

} // verus!
