//! Strings: comparing them, searching them, and writing numbers.

use vstd::prelude::*;
use vstd::string::*;
use vstd::utf8::{encode_utf8, encode_utf8_decode_utf8};

verus! {

/// Whether `needle` stands at `offset` in `haystack`.
pub open spec fn stands_at(haystack: Seq<u8>, needle: Seq<u8>, offset: int) -> bool {
    &&& 0 <= offset
    &&& offset + needle.len() <= haystack.len()
    &&& haystack.subrange(offset, offset + needle.len()) == needle
}

/// Whether `offset` is the first place at which `needle` stands in `haystack`.
pub open spec fn first_stands_at(haystack: Seq<u8>, needle: Seq<u8>, offset: int) -> bool {
    &&& stands_at(haystack, needle, offset)
    &&& forall|earlier: int| 0 <= earlier < offset ==> !#[trigger] stands_at(haystack, needle, earlier)
}

/// Whether `needle` stands at `offset` in `haystack`.
fn is_at(haystack: &[u8], needle: &[u8], offset: usize) -> (found: bool)
    requires
        offset + needle@.len() <= haystack@.len(),
    ensures
        found == stands_at(haystack@, needle@, offset as int),
{
    let mut index: usize = 0;
    let limit: usize = haystack.len();
    while index < needle.len()
        invariant
            index <= needle@.len(),
            limit == haystack@.len(),
            offset + needle@.len() <= limit,
            forall|at: int| 0 <= at < index ==> haystack@[offset + at] == #[trigger] needle@[at],
        decreases needle@.len() - index,
    {
        if haystack[offset + index] != needle[index] {
            proof {
                let part = haystack@.subrange(offset as int, offset + needle@.len());
                assert(part[index as int] != needle@[index as int]);
            }
            return false;
        }
        index += 1;
    }
    assert(haystack@.subrange(offset as int, offset + needle@.len()) =~= needle@);
    true
}

/// The first place at which `needle` stands in `haystack`.
pub fn find_bytes(haystack: &[u8], needle: &[u8]) -> (offset: Option<usize>)
    ensures
        match offset {
            Some(offset) => first_stands_at(haystack@, needle@, offset as int),
            None => forall|offset: int| !#[trigger] stands_at(haystack@, needle@, offset),
        },
{
    if needle.len() > haystack.len() {
        return None;
    }
    let last: usize = haystack.len() - needle.len();
    let mut offset: usize = 0;
    while offset <= last
        invariant
            needle@.len() <= haystack@.len(),
            last == haystack@.len() - needle@.len(),
            offset <= last + 1,
            forall|earlier: int|
                0 <= earlier < offset ==> !#[trigger] stands_at(haystack@, needle@, earlier),
        decreases last + 1 - offset,
    {
        if is_at(haystack, needle, offset) {
            return Some(offset);
        }
        if offset == last {
            return None;
        }
        offset += 1;
    }
    None
}

/// Whether two sequences of bytes are equal.
pub fn same_bytes(left: &[u8], right: &[u8]) -> (same: bool)
    ensures
        same == (left@ == right@),
{
    if left.len() != right.len() {
        return false;
    }
    let same: bool = is_at(left, right, 0);
    assert(left@.subrange(0, left@.len() as int) =~= left@);
    same
}

/// Strings are equal exactly if their bytes are.
pub proof fn law_bytes_tell_strings_apart(left: Seq<char>, right: Seq<char>)
    ensures
        (encode_utf8(left) == encode_utf8(right)) == (left == right),
{
    encode_utf8_decode_utf8(left);
    encode_utf8_decode_utf8(right);
}

/// Whether two strings are equal.
pub fn same_text(left: &str, right: &str) -> (same: bool)
    ensures
        same == (left@ == right@),
{
    proof {
        law_bytes_tell_strings_apart(left@, right@);
    }
    same_bytes(left.as_bytes(), right.as_bytes())
}

/// Whether `character` occurs in `text`.
pub fn contains_char(text: &str, character: char) -> (found: bool)
    ensures
        found == text@.contains(character),
{
    let count: usize = text.unicode_len();
    let mut index: usize = 0;
    while index < count
        invariant
            index <= count,
            count == text@.len(),
            forall|at: int| 0 <= at < index ==> text@[at] != character,
        decreases count - index,
    {
        if text.get_char(index) == character {
            return true;
        }
        index += 1;
    }
    false
}

/// Whether a character has the Unicode property `White_Space`.
pub open spec fn white_space(character: char) -> bool {
    ||| '\u{9}' <= character <= '\u{d}'
    ||| character == ' '
    ||| character == '\u{85}'
    ||| character == '\u{a0}'
    ||| character == '\u{1680}'
    ||| '\u{2000}' <= character <= '\u{200a}'
    ||| character == '\u{2028}'
    ||| character == '\u{2029}'
    ||| character == '\u{202f}'
    ||| character == '\u{205f}'
    ||| character == '\u{3000}'
}

/// Whether a character has the Unicode property `White_Space`.
pub fn is_white_space(character: char) -> (found: bool)
    ensures
        found == white_space(character),
{
    ('\u{9}' <= character && character <= '\u{d}') || character == ' ' || character == '\u{85}'
        || character == '\u{a0}' || character == '\u{1680}' || ('\u{2000}' <= character && character
        <= '\u{200a}') || character == '\u{2028}' || character == '\u{2029}' || character == '\u{202f}'
        || character == '\u{205f}' || character == '\u{3000}'
}

/// White space is what Unicode counts as such, by the numbers of its characters: tabulators and line
/// breaks, spaces of all widths, and the separators of lines and paragraphs.
pub proof fn law_white_space_by_number(character: char)
    ensures
        white_space(character) <==> set![
            0x9int, 0xa, 0xb, 0xc, 0xd, 0x20, 0x85, 0xa0, 0x1680, 0x2000, 0x2001, 0x2002, 0x2003,
            0x2004, 0x2005, 0x2006, 0x2007, 0x2008, 0x2009, 0x200a, 0x2028, 0x2029, 0x202f, 0x205f,
            0x3000,
        ].contains(character as int),
{
}

/// A text without the white space at its start.
pub open spec fn trim_start(text: Seq<char>) -> Seq<char>
    decreases text.len(),
{
    if text.len() > 0 && white_space(text.first()) {
        trim_start(text.skip(1))
    } else {
        text
    }
}

/// A text without the white space at its end.
pub open spec fn trim_end(text: Seq<char>) -> Seq<char>
    decreases text.len(),
{
    if text.len() > 0 && white_space(text.last()) {
        trim_end(text.drop_last())
    } else {
        text
    }
}

/// A text without the white space at its start and at its end.
pub open spec fn trimmed(text: Seq<char>) -> Seq<char> {
    trim_end(trim_start(text))
}

/// A text without the white space at its start and at its end.
pub fn trim(text: &str) -> (rest: String)
    ensures
        rest@ == trimmed(text@),
{
    let count: usize = text.unicode_len();
    let mut start: usize = 0;
    assert(text@.skip(0) =~= text@);
    while start < count && is_white_space(text.get_char(start))
        invariant
            start <= count,
            count == text@.len(),
            trim_start(text@.skip(start as int)) == trim_start(text@),
        decreases count - start,
    {
        assert(text@.skip(start as int).skip(1) =~= text@.skip(start + 1));
        start += 1;
    }
    let mut end: usize = count;
    let ghost rest = text@.skip(start as int);
    assert(rest == trim_start(text@));
    assert(text@.subrange(start as int, count as int) =~= rest);
    while start < end && is_white_space(text.get_char(end - 1))
        invariant
            start <= end <= count,
            count == text@.len(),
            trim_end(text@.subrange(start as int, end as int)) == trim_end(rest),
        decreases end - start,
    {
        assert(text@.subrange(start as int, end as int).drop_last() =~= text@.subrange(
            start as int,
            end - 1,
        ));
        end -= 1;
    }
    text.substring_char(start, end).to_string()
}

/// Trimming a text twice is no different from trimming it once, and leaves no white space at
/// its ends.
pub proof fn law_trim_once(text: Seq<char>)
    ensures
        trimmed(trimmed(text)) == trimmed(text),
        trimmed(text).len() > 0 ==> !white_space(trimmed(text).first()) && !white_space(
            trimmed(text).last(),
        ),
{
    lemma_trim_start(text);
    lemma_trim_end(trim_start(text));
}

/// What is trimmed at its start does not begin with white space.
proof fn lemma_trim_start(text: Seq<char>)
    ensures
        trim_start(text).len() > 0 ==> !white_space(trim_start(text).first()),
    decreases text.len(),
{
    if text.len() > 0 && white_space(text.first()) {
        lemma_trim_start(text.skip(1));
    }
}

/// What is trimmed at its end does not end with white space, and begins as before.
proof fn lemma_trim_end(text: Seq<char>)
    ensures
        trim_end(text).len() > 0 ==> !white_space(trim_end(text).last()) && trim_end(text).first()
            == text.first(),
    decreases text.len(),
{
    if text.len() > 0 && white_space(text.last()) {
        lemma_trim_end(text.drop_last());
    }
}

/// Trimming takes nothing but white space, and only at the ends: what is left stands in the text
/// between two places, and all before the first and behind the second is white space.
pub proof fn law_trimming_takes_only_white_space(text: Seq<char>) -> (ends: (int, int))
    ensures
        0 <= ends.0 <= ends.1 <= text.len(),
        trimmed(text) == text.subrange(ends.0, ends.1),
        forall|at: int| 0 <= at < ends.0 ==> white_space(#[trigger] text[at]),
        forall|at: int| ends.1 <= at < text.len() ==> white_space(#[trigger] text[at]),
{
    let start = lemma_trimmed_start(text);
    let rest = text.skip(start);
    let length = lemma_trimmed_end(rest);
    assert(trimmed(text) =~= text.subrange(start, start + length));
    assert forall|at: int| start + length <= at < text.len() implies white_space(
        #[trigger] text[at],
    ) by {
        assert(rest[at - start] == text[at]);
    }
    (start, start + length)
}

/// How much is taken at the start of a text.
proof fn lemma_trimmed_start(text: Seq<char>) -> (start: int)
    ensures
        0 <= start <= text.len(),
        trim_start(text) == text.skip(start),
        forall|at: int| 0 <= at < start ==> white_space(#[trigger] text[at]),
    decreases text.len(),
{
    if text.len() > 0 && white_space(text.first()) {
        let rest = text.skip(1);
        let start = lemma_trimmed_start(rest);
        assert(rest.skip(start) =~= text.skip(start + 1));
        assert forall|at: int| 0 <= at < start + 1 implies white_space(#[trigger] text[at]) by {
            if at > 0 {
                assert(rest[at - 1] == text[at]);
            }
        }
        start + 1
    } else {
        assert(text.skip(0) =~= text);
        0
    }
}

/// How much is left at the end of a text.
proof fn lemma_trimmed_end(text: Seq<char>) -> (length: int)
    ensures
        0 <= length <= text.len(),
        trim_end(text) == text.take(length),
        forall|at: int| length <= at < text.len() ==> white_space(#[trigger] text[at]),
    decreases text.len(),
{
    if text.len() > 0 && white_space(text.last()) {
        let rest = text.drop_last();
        let length = lemma_trimmed_end(rest);
        assert(rest.take(length) =~= text.take(length));
        assert forall|at: int| length <= at < text.len() implies white_space(
            #[trigger] text[at],
        ) by {
            if at < rest.len() {
                assert(rest[at] == text[at]);
            }
        }
        length
    } else {
        assert(text.take(text.len() as int) =~= text);
        text.len() as int
    }
}

/// Nothing is left of a text exactly if it holds nothing but white space.
pub proof fn law_only_white_space_is_blank(text: Seq<char>)
    ensures
        (trimmed(text).len() == 0) == (forall|at: int|
            0 <= at < text.len() ==> white_space(#[trigger] text[at])),
{
    let ends = law_trimming_takes_only_white_space(text);
    law_trim_once(text);
    if trimmed(text).len() > 0 {
        assert(trimmed(text).first() == text[ends.0]);
    }
}

/// The digit that stands for a number below ten.
pub open spec fn digit(value: nat) -> char {
    if value == 0 {
        '0'
    } else if value == 1 {
        '1'
    } else if value == 2 {
        '2'
    } else if value == 3 {
        '3'
    } else if value == 4 {
        '4'
    } else if value == 5 {
        '5'
    } else if value == 6 {
        '6'
    } else if value == 7 {
        '7'
    } else if value == 8 {
        '8'
    } else {
        '9'
    }
}

/// A number in decimal digits, without leading zeros.
pub open spec fn decimal(value: nat) -> Seq<char>
    decreases value,
{
    if value < 10 {
        seq![digit(value)]
    } else {
        decimal(value / 10).push(digit(value % 10))
    }
}

/// The string that holds the digit for a number below ten.
fn digit_str(value: u64) -> (text: &'static str)
    requires
        value < 10,
    ensures
        text@ == seq![digit(value as nat)],
{
    proof {
        reveal_strlit("0");
        reveal_strlit("1");
        reveal_strlit("2");
        reveal_strlit("3");
        reveal_strlit("4");
        reveal_strlit("5");
        reveal_strlit("6");
        reveal_strlit("7");
        reveal_strlit("8");
        reveal_strlit("9");
    }
    let text: &'static str = if value == 0 {
        "0"
    } else if value == 1 {
        "1"
    } else if value == 2 {
        "2"
    } else if value == 3 {
        "3"
    } else if value == 4 {
        "4"
    } else if value == 5 {
        "5"
    } else if value == 6 {
        "6"
    } else if value == 7 {
        "7"
    } else if value == 8 {
        "8"
    } else {
        "9"
    };
    assert(text@ =~= seq![digit(value as nat)]);
    text
}

/// Writes a number in decimal digits.
pub fn to_decimal(value: u64) -> (text: String)
    ensures
        text@ == decimal(value as nat),
    decreases value,
{
    if value < 10 {
        digit_str(value).to_string()
    } else {
        let mut text: String = to_decimal(value / 10);
        text.append(digit_str(value % 10));
        assert(text@ =~= decimal(value as nat));
        text
    }
}

/// The number that a digit stands for.
pub open spec fn digit_value(character: char) -> Option<nat> {
    if '0' <= character <= '9' {
        Some((character as int - '0' as int) as nat)
    } else {
        None
    }
}

/// The number that some decimal digits stand for, if there are only digits.
pub open spec fn digits_value(digits: Seq<char>) -> Option<nat>
    decreases digits.len(),
{
    if digits.len() == 0 {
        Some(0)
    } else {
        match (digits_value(digits.drop_last()), digit_value(digits.last())) {
            (Some(high), Some(low)) => Some(high * 10 + low),
            _ => None,
        }
    }
}

/// The number that a text stands for: one or more decimal digits, with or without a plus sign
/// in front.
pub open spec fn number_value(text: Seq<char>) -> Option<nat> {
    let digits = if text.len() > 0 && text[0] == '+' {
        text.skip(1)
    } else {
        text
    };
    if digits.len() == 0 {
        None
    } else {
        digits_value(digits)
    }
}

/// Reads a number of at most 32 bits.
pub fn parse_u32(text: &str) -> (value: Option<u32>)
    ensures
        match number_value(text@) {
            Some(number) => value == (if number <= u32::MAX {
                Some(number as u32)
            } else {
                None
            }),
            None => value is None,
        },
{
    let count: usize = text.unicode_len();
    let start: usize = if count > 0 && text.get_char(0) == '+' {
        1
    } else {
        0
    };
    let ghost digits = text@.skip(start as int);
    assert(text@.skip(0) =~= text@);
    if start == count {
        return None;
    }
    let mut value: u64 = 0;
    let mut overflow: bool = false;
    let mut index: usize = start;
    while index < count
        invariant
            start <= index <= count,
            count == text@.len(),
            digits == text@.skip(start as int),
            number_value(text@) == digits_value(digits),
            digits_value(digits.take(index - start)) is Some,
            !overflow ==> value == digits_value(digits.take(index - start))->0 && value <= u32::MAX,
            overflow ==> digits_value(digits.take(index - start))->0 > u32::MAX,
        decreases count - index,
    {
        let character: char = text.get_char(index);
        proof {
            let upto = digits.take(index - start + 1);
            assert(upto.drop_last() =~= digits.take(index - start));
            assert(upto.last() == character);
        }
        if !('0' <= character && character <= '9') {
            proof {
                lemma_no_digit(digits, index - start);
            }
            return None;
        }
        let low: u64 = (character as u32 - '0' as u32) as u64;
        if !overflow {
            value = value * 10 + low;
            if value > u32::MAX as u64 {
                overflow = true;
                value = 0;
            }
        }
        index += 1;
    }
    assert(digits.take(digits.len() as int) =~= digits);
    if overflow {
        None
    } else {
        Some(value as u32)
    }
}

/// A text with a character that is no digit is no number.
proof fn lemma_no_digit(digits: Seq<char>, at: int)
    requires
        0 <= at < digits.len(),
        digit_value(digits[at]) is None,
    ensures
        digits_value(digits) is None,
    decreases digits.len(),
{
    if at < digits.len() - 1 {
        lemma_no_digit(digits.drop_last(), at);
    }
}

/// Reading a number that was written gives it back.
pub proof fn law_decimal_round_trip(value: nat)
    ensures
        number_value(decimal(value)) == Some(value),
{
    lemma_decimal_digits(value);
}

/// What the digits of a number stand for, and that there are only digits.
proof fn lemma_decimal_digits(value: nat)
    ensures
        decimal(value).len() > 0,
        digits_value(decimal(value)) == Some(value),
        decimal(value)[0] != '+',
    decreases value,
{
    if value < 10 {
        assert(seq![digit(value)].drop_last() =~= Seq::<char>::empty());
        assert(digits_value(Seq::<char>::empty()) == Some(0nat));
    } else {
        lemma_decimal_digits(value / 10);
        assert(decimal(value).drop_last() =~= decimal(value / 10));
    }
}

/// The digits of a number, each worth ten times as much as the next, make up that number, and a
/// number of several digits does not begin with a zero.
pub proof fn law_decimal_digits_have_their_place(value: nat)
    ensures
        decimal(value).fold_left(
            0int,
            |high: int, character: char| high * 10 + (character as int - 0x30),
        ) == value,
        forall|at: int|
            0 <= at < decimal(value).len() ==> 0x30 <= (#[trigger] decimal(value)[at]) as int
                <= 0x39,
        decimal(value).len() > 1 ==> decimal(value)[0] as int != 0x30,
        decimal(value).len() > 0,
    decreases value,
{
    let add_digit = |high: int, character: char| high * 10 + (character as int - 0x30);
    if value < 10 {
        assert(decimal(value).drop_last() =~= Seq::<char>::empty());
        assert(Seq::<char>::empty().fold_left(0int, add_digit) == 0);
    } else {
        law_decimal_digits_have_their_place(value / 10);
        assert(decimal(value).drop_last() =~= decimal(value / 10));
        let all = decimal(value);
        let high = decimal(value / 10);
        assert forall|at: int| 0 <= at < all.len() implies 0x30 <= (#[trigger] all[at]) as int
            <= 0x39 by {
            if at < high.len() {
                assert(all[at] == high[at]);
            }
        }
        if high.len() == 1 {
            assert(high.drop_last() =~= Seq::<char>::empty());
            assert(Seq::<char>::empty().fold_left(0int, add_digit) == 0);
            assert(high.last() == high[0]);
        }
        assert(all[0] == high[0]);
    }
}

/// A text of digits stands for the number that they make up, with or without a plus sign in front of
/// them; one without digits, or with anything else, stands for none.
pub proof fn law_numbers_are_read_by_place(digits: Seq<char>)
    requires
        digits.len() > 0 ==> digits[0] != '+',
    ensures
        (number_value(digits) is Some) == (digits.len() > 0 && forall|at: int|
            0 <= at < digits.len() ==> 0x30 <= (#[trigger] digits[at]) as int <= 0x39),
        number_value(digits) matches Some(value) ==> value == digits.fold_left(
            0int,
            |high: int, character: char| high * 10 + (character as int - 0x30),
        ),
        number_value(seq!['+'] + digits) == number_value(digits),
{
    lemma_digits_by_place(digits);
    let signed = seq!['+'] + digits;
    assert(signed.skip(1) =~= digits);
}

/// Some digits stand for the number that they make up.
proof fn lemma_digits_by_place(digits: Seq<char>)
    ensures
        (digits_value(digits) is Some) == (forall|at: int|
            0 <= at < digits.len() ==> 0x30 <= (#[trigger] digits[at]) as int <= 0x39),
        digits_value(digits) matches Some(value) ==> value == digits.fold_left(
            0int,
            |high: int, character: char| high * 10 + (character as int - 0x30),
        ),
    decreases digits.len(),
{
    if digits.len() > 0 {
        let rest = digits.drop_last();
        lemma_digits_by_place(rest);
        if digits_value(digits) is Some {
            assert forall|at: int| 0 <= at < digits.len() implies 0x30 <= (
            #[trigger] digits[at]) as int <= 0x39 by {
                if at < rest.len() {
                    assert(rest[at] == digits[at]);
                }
            }
        }
        if forall|at: int|
            0 <= at < digits.len() ==> 0x30 <= (#[trigger] digits[at]) as int <= 0x39 {
            assert forall|at: int| 0 <= at < rest.len() implies 0x30 <= (
            #[trigger] rest[at]) as int <= 0x39 by {
                assert(rest[at] == digits[at]);
            }
            assert(digits.last() == digits[digits.len() - 1]);
        }
    }
}

} // verus!
