//! Text as sequences of characters: prefixes, pieces between separators, decimal numbers.
use vstd::prelude::*;
use vstd::string::{StrSliceExecFns, StringExecFns};

verus! {

/// What is left of `text` once `prefix` has been taken off its front as often as it stands there.
pub open spec fn stripped(text: Seq<char>, prefix: Seq<char>) -> Seq<char>
    decreases text.len(),
{
    if prefix.len() > 0 && prefix.is_prefix_of(text) {
        stripped(text.skip(prefix.len() as int), prefix)
    } else {
        text
    }
}

/// The pieces of `text` between the occurrences of `separator`, which belongs to none of them.
pub open spec fn pieces(text: Seq<char>, separator: char) -> Seq<Seq<char>>
    decreases text.len(),
{
    if text.len() == 0 {
        seq![text]
    } else {
        let before = pieces(text.drop_last(), separator);
        if text.last() == separator {
            before.push(Seq::empty())
        } else {
            before.update(before.len() - 1, before.last().push(text.last()))
        }
    }
}

pub open spec fn is_digit(c: char) -> bool {
    '0' <= c <= '9'
}

/// The number that the decimal digits `digits` write.
pub open spec fn decimal_value(digits: Seq<char>) -> nat
    decreases digits.len(),
{
    if digits.len() == 0 {
        0
    } else {
        10 * decimal_value(digits.drop_last()) + (digits.last() as int - '0' as int) as nat
    }
}

/// The digits of a number that may have a `+` in front.
pub open spec fn unsigned_digits(text: Seq<char>) -> Seq<char> {
    if text.len() > 0 && text[0] == '+' {
        text.drop_first()
    } else {
        text
    }
}

/// The 32-bit number that `text` writes: an optional `+`, then one or more decimal digits.
pub open spec fn parsed_u32(text: Seq<char>) -> Option<u32> {
    let digits = unsigned_digits(text);
    if digits.len() > 0 && (forall|i: int| 0 <= i < digits.len() ==> is_digit(#[trigger] digits[i]))
        && decimal_value(digits) <= u32::MAX {
        Some(decimal_value(digits) as u32)
    } else {
        None
    }
}

/// The characters of `text`.
pub(crate) fn chars_of(text: &str) -> (chars: Vec<char>)
    ensures
        chars@ == text@,
{
    let mut chars: Vec<char> = Vec::new();
    for c in it: text.chars()
        invariant
            it.seq() == text@,
            chars@ == it.seq().take(it.index() as int),
    {
        chars.push(c);
    }
    chars
}

/// Whether two texts are the same.
pub(crate) fn same_text(a: &str, b: &str) -> (same: bool)
    ensures
        same == (a@ == b@),
{
    let left = a.as_bytes();
    let right = b.as_bytes();
    proof {
        vstd::utf8::encode_utf8_decode_utf8(a@);
        vstd::utf8::encode_utf8_decode_utf8(b@);
    }
    if left.len() != right.len() {
        return false;
    }
    let mut i: usize = 0;
    while i < left.len()
        invariant
            i <= left@.len(),
            left@.len() == right@.len(),
            left@ == vstd::utf8::encode_utf8(a@),
            right@ == vstd::utf8::encode_utf8(b@),
            left@.take(i as int) == right@.take(i as int),
        decreases left@.len() - i,
    {
        if left[i] != right[i] {
            return false;
        }
        assert(left@.take(i + 1) == left@.take(i as int).push(left@[i as int]));
        assert(right@.take(i + 1) == right@.take(i as int).push(right@[i as int]));
        i = i + 1;
    }
    assert(left@.take(i as int) == left@);
    assert(right@.take(i as int) == right@);
    true
}

/// Whether `wanted` stands in `chars` from position `at` on.
fn stands_at(chars: &Vec<char>, at: usize, wanted: &Vec<char>) -> (found: bool)
    requires
        at <= chars@.len(),
    ensures
        found == wanted@.is_prefix_of(chars@.skip(at as int)),
{
    if wanted.len() > chars.len() - at {
        return false;
    }
    let mut i: usize = 0;
    while i < wanted.len()
        invariant
            at + wanted@.len() <= chars.len(),
            i <= wanted@.len(),
            forall|j: int| 0 <= j < i ==> wanted@[j] == chars@[at + j],
        decreases wanted@.len() - i,
    {
        if chars[at + i] != wanted[i] {
            assert(wanted@[i as int] != chars@.skip(at as int).subrange(0, wanted@.len() as int)[i as int]);
            return false;
        }
        i = i + 1;
    }
    true
}

/// Whether `text` begins with `prefix`.
pub(crate) fn starts_with(text: &str, prefix: &str) -> (found: bool)
    ensures
        found == prefix@.is_prefix_of(text@),
{
    assert(text@.skip(0) == text@);
    stands_at(&chars_of(text), 0, &chars_of(prefix))
}

/// Whether `text` ends with `suffix`.
pub(crate) fn ends_with(text: &str, suffix: &str) -> (found: bool)
    ensures
        found == suffix@.is_suffix_of(text@),
{
    let chars = chars_of(text);
    let wanted = chars_of(suffix);
    if wanted.len() > chars.len() {
        return false;
    }
    let at: usize = chars.len() - wanted.len();
    assert(text@.skip(at as int) == text@.subrange(at as int, text@.len() as int));
    assert(text@.skip(at as int).subrange(0, suffix@.len() as int) == text@.skip(at as int));
    stands_at(&chars, at, &wanted)
}

/// `text` without the copies of `prefix` at its front.
pub(crate) fn trim_start_matches<'a>(text: &'a str, prefix: &str) -> (rest: &'a str)
    ensures
        rest@ == stripped(text@, prefix@),
{
    let chars = chars_of(text);
    let wanted = chars_of(prefix);
    let mut at: usize = 0;
    assert(text@.skip(0) == text@);
    while wanted.len() > 0 && stands_at(&chars, at, &wanted)
        invariant
            chars@ == text@,
            wanted@ == prefix@,
            at <= chars.len(),
            stripped(text@, prefix@) == stripped(text@.skip(at as int), prefix@),
        decreases chars@.len() - at,
    {
        assert(text@.skip(at as int).skip(prefix@.len() as int) == text@.skip(at + prefix@.len()));
        at = at + wanted.len();
    }
    assert(text@.skip(at as int) == text@.subrange(at as int, text@.len() as int));
    text.substring_char(at, chars.len())
}

/// The pieces of `text` between the occurrences of `separator`.
pub(crate) fn split(text: &str, separator: char) -> (parts: Vec<&str>)
    ensures
        parts@.len() > 0,
        parts@.map_values(|part: &str| part@) == pieces(text@, separator),
{
    let chars = chars_of(text);
    let mut parts: Vec<&str> = Vec::new();
    let mut start: usize = 0;
    let mut i: usize = 0;
    assert(text@.take(0) == Seq::<char>::empty());
    assert(text@.subrange(0, 0) == Seq::<char>::empty());
    while i < chars.len()
        invariant
            chars@ == text@,
            start <= i <= chars@.len(),
            parts@.map_values(|part: &str| part@).push(text@.subrange(start as int, i as int))
                == pieces(text@.take(i as int), separator),
        decreases chars@.len() - i,
    {
        let ghost so_far = parts@.map_values(|part: &str| part@);
        assert(text@.take(i + 1).drop_last() == text@.take(i as int));
        if chars[i] == separator {
            let part: &str = text.substring_char(start, i);
            parts.push(part);
            start = i + 1;
            assert(parts@.map_values(|part: &str| part@) == so_far.push(part@));
            assert(text@.subrange(i + 1, i + 1) == Seq::<char>::empty());
        } else {
            assert(text@.subrange(start as int, i + 1)
                == text@.subrange(start as int, i as int).push(chars@[i as int]));
        }
        i = i + 1;
    }
    assert(text@.take(i as int) == text@);
    let ghost so_far = parts@.map_values(|part: &str| part@);
    let part: &str = text.substring_char(start, i);
    parts.push(part);
    assert(parts@.map_values(|part: &str| part@) == so_far.push(part@));
    parts
}

/// `a` followed by `b`.
pub(crate) fn concat(a: &str, b: &str) -> (text: String)
    ensures
        text@ == a@ + b@,
{
    let mut text = a.to_owned();
    text.append(b);
    text
}

/// `a`, `b` and `c`, one after the other.
pub(crate) fn concat3(a: &str, b: &str, c: &str) -> (text: String)
    ensures
        text@ == a@ + b@ + c@,
{
    let mut text = concat(a, b);
    text.append(c);
    text
}

/// The first digits of a number write no more than all of them.
proof fn lemma_decimal_grows(digits: Seq<char>, upto: int)
    requires
        0 <= upto <= digits.len(),
        forall|i: int| 0 <= i < digits.len() ==> is_digit(#[trigger] digits[i]),
    ensures
        decimal_value(digits.take(upto)) <= decimal_value(digits),
    decreases digits.len() - upto,
{
    if upto == digits.len() {
        assert(digits.take(upto) == digits);
    } else {
        lemma_decimal_grows(digits, upto + 1);
        assert(digits.take(upto + 1).drop_last() == digits.take(upto));
    }
}

/// The 32-bit number that `text` writes, if it writes one.
pub(crate) fn parse_u32(text: &str) -> (number: Option<u32>)
    ensures
        number == parsed_u32(text@),
{
    let chars = chars_of(text);
    let start: usize = if chars.len() > 0 && chars[0] == '+' { 1 } else { 0 };
    let ghost digits = unsigned_digits(text@);
    assert(digits == text@.skip(start as int));
    if start == chars.len() {
        return None;
    }
    let mut value: u32 = 0;
    let mut i: usize = start;
    while i < chars.len()
        invariant
            chars@ == text@,
            start <= i <= chars@.len(),
            digits == text@.skip(start as int),
            digits == unsigned_digits(text@),
            forall|j: int| 0 <= j < i - start ==> is_digit(#[trigger] digits[j]),
            value == decimal_value(digits.take(i - start)),
        decreases chars@.len() - i,
    {
        let c = chars[i];
        assert(digits[i - start] == c);
        if c < '0' || c > '9' {
            return None;
        }
        let digit: u32 = c as u32 - '0' as u32;
        assert(digits.take(i + 1 - start).drop_last() == digits.take(i - start));
        if value > (u32::MAX - digit) / 10 {
            proof {
                if forall|j: int| 0 <= j < digits.len() ==> is_digit(#[trigger] digits[j]) {
                    lemma_decimal_grows(digits, i + 1 - start);
                }
            }
            return None;
        }
        value = value * 10 + digit;
        i = i + 1;
    }
    assert(digits.take(i - start) == digits);
    Some(value)
}

/// What is left once a prefix has been stripped does not begin with it.
pub(crate) proof fn lemma_stripped_has_no_prefix(text: Seq<char>, prefix: Seq<char>)
    requires
        prefix.len() > 0,
    ensures
        !prefix.is_prefix_of(stripped(text, prefix)),
    decreases text.len(),
{
    if prefix.is_prefix_of(text) {
        lemma_stripped_has_no_prefix(text.skip(prefix.len() as int), prefix);
    }
}

/// One more copy of the prefix in front makes no difference to what is left.
pub(crate) proof fn lemma_stripped_of_prefixed(text: Seq<char>, prefix: Seq<char>)
    requires
        prefix.len() > 0,
    ensures
        stripped(prefix + text, prefix) == stripped(text, prefix),
{
    assert((prefix + text).subrange(0, prefix.len() as int) == prefix);
    assert((prefix + text).skip(prefix.len() as int) == text);
}

/// The pieces of a text hold its characters but for the separators: none of them holds one.
pub(crate) proof fn lemma_pieces_hold_no_separator(text: Seq<char>, separator: char)
    ensures
        pieces(text, separator).len() > 0,
        forall|i: int|
            0 <= i < pieces(text, separator).len() ==> !(#[trigger] pieces(
                text,
                separator,
            )[i]).contains(separator),
    decreases text.len(),
{
    if text.len() > 0 {
        lemma_pieces_hold_no_separator(text.drop_last(), separator);
        let before = pieces(text.drop_last(), separator);
        let last = before.len() - 1;
        assert(!before[last].contains(separator));
        assert(text.last() != separator ==> !before[last].push(text.last()).contains(separator)) by {
            if text.last() != separator && before[last].push(text.last()).contains(separator) {
                let j = choose|j: int|
                    0 <= j < before[last].len() + 1 && before[last].push(text.last())[j] == separator;
                assert(before[last][j] == separator);
            }
        }
    }
}

/// A text without the separator is its own one piece.
pub(crate) proof fn lemma_pieces_of_one(text: Seq<char>, separator: char)
    requires
        !text.contains(separator),
    ensures
        pieces(text, separator) == seq![text],
    decreases text.len(),
{
    if text.len() > 0 {
        let before = text.drop_last();
        assert forall|i: int| 0 <= i < before.len() implies before[i] != separator by {
            assert(text[i] != separator);
        }
        assert(text[text.len() - 1] != separator);
        lemma_pieces_of_one(before, separator);
        assert(before.push(text.last()) =~= text);
        assert(pieces(text, separator) =~= seq![text]);
    }
}

/// A text that is put together with the separator from one without it and another one falls into
/// the first and the pieces of the other.
pub(crate) proof fn lemma_pieces_of_joined(first: Seq<char>, separator: char, rest: Seq<char>)
    requires
        !first.contains(separator),
    ensures
        pieces(first.push(separator) + rest, separator) == seq![first] + pieces(rest, separator),
    decreases rest.len(),
{
    let text = first.push(separator) + rest;
    if rest.len() == 0 {
        assert(text =~= first.push(separator));
        assert(text.drop_last() =~= first);
        lemma_pieces_of_one(first, separator);
        assert(rest =~= Seq::empty());
        assert(pieces(text, separator) =~= seq![first] + pieces(rest, separator));
    } else {
        lemma_pieces_of_joined(first, separator, rest.drop_last());
        assert(text.drop_last() =~= first.push(separator) + rest.drop_last());
        lemma_pieces_hold_no_separator(rest.drop_last(), separator);
        let before = pieces(rest.drop_last(), separator);
        let whole = seq![first] + before;
        assert(pieces(text.drop_last(), separator) == whole);
        assert(text.last() == rest.last());
        assert(whole.last() == before.last());
        if rest.last() == separator {
            assert(whole.push(Seq::empty()) =~= seq![first] + before.push(Seq::empty()));
        } else {
            let grown = before.last().push(rest.last());
            assert(whole.update(whole.len() - 1, grown) =~= seq![first] + before.update(
                before.len() - 1,
                grown,
            ));
        }
    }
}

/// The first piece of a text is the text as a whole, or what stands before the first separator.
pub(crate) proof fn lemma_first_piece(text: Seq<char>, separator: char)
    ensures
        pieces(text, separator).len() > 0,
        pieces(text, separator)[0].is_prefix_of(text),
        pieces(text, separator).len() == 1 ==> pieces(text, separator)[0] == text,
        pieces(text, separator).len() > 1 ==> pieces(text, separator)[0].len() < text.len()
            && text[pieces(text, separator)[0].len() as int] == separator,
    decreases text.len(),
{
    if text.len() > 0 {
        let earlier = text.drop_last();
        let before = pieces(earlier, separator);
        lemma_first_piece(earlier, separator);
        assert(earlier.push(text.last()) =~= text);
        assert(before[0] =~= earlier.subrange(0, before[0].len() as int));
        assert(earlier.subrange(0, before[0].len() as int) =~= text.subrange(
            0,
            before[0].len() as int,
        ));
        if before.len() == 1 && text.last() != separator {
            assert(pieces(text, separator)[0] =~= text);
        } else {
            assert(pieces(text, separator)[0] =~= before[0]);
        }
    } else {
        assert(pieces(text, separator)[0] =~= text);
    }
}

/// A text without the separator stands at the front of a text exactly if it stands at the front of
/// the first piece.
pub(crate) proof fn lemma_prefix_of_first_piece(prefix: Seq<char>, text: Seq<char>, separator: char)
    requires
        !prefix.contains(separator),
    ensures
        prefix.is_prefix_of(pieces(text, separator)[0]) <==> prefix.is_prefix_of(text),
{
    lemma_first_piece(text, separator);
    let first = pieces(text, separator)[0];
    assert(first =~= text.subrange(0, first.len() as int));
    if prefix.is_prefix_of(first) {
        assert(prefix =~= text.subrange(0, prefix.len() as int));
    }
    if prefix.is_prefix_of(text) {
        if prefix.len() > first.len() {
            assert(prefix[first.len() as int] == text.subrange(0, prefix.len() as int)[first.len() as int]);
            assert(prefix.contains(separator));
        } else {
            assert(prefix =~= first.subrange(0, prefix.len() as int));
        }
    }
}

/// Two texts together begin with the one and end with the other.
pub(crate) proof fn lemma_joined(first: Seq<char>, last: Seq<char>)
    ensures
        first.is_prefix_of(first + last),
        last.is_suffix_of(first + last),
{
    assert((first + last).subrange(0, first.len() as int) =~= first);
    assert((first + last).subrange(first.len() as int, (first + last).len() as int) =~= last);
}

} // verus!
