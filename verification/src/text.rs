//! Text as sequences of characters: trimming, splitting into words, case
//! folding and reading decimal numbers.

use vstd::prelude::*;
use vstd::std_specs::iter::IteratorSpec;
use vstd::string::StrSliceExecFns;

verus! {

/// Whether a character has the Unicode property `White_Space`.
pub uninterp spec fn white_space(c: char) -> bool;

/// The lower-case form of a text under the Unicode case mapping.
pub uninterp spec fn lowercase(text: Seq<char>) -> Seq<char>;

/// For each character of a text, whether it is white space.
pub open spec fn white_flags(text: Seq<char>) -> Seq<bool> {
    Seq::new(text.len(), |i: int| white_space(text[i]))
}

/// Number of marks at the front of `marks` that equal `mark`.
pub open spec fn leading(marks: Seq<bool>, mark: bool) -> nat
    decreases marks.len(),
{
    if marks.len() == 0 || marks.first() != mark {
        0
    } else {
        1 + leading(marks.drop_first(), mark)
    }
}

/// Number of marks at the back of `marks` that equal `mark`.
pub open spec fn trailing(marks: Seq<bool>, mark: bool) -> nat
    decreases marks.len(),
{
    if marks.len() == 0 || marks.last() != mark {
        0
    } else {
        1 + trailing(marks.drop_last(), mark)
    }
}

/// A text without the characters marked at its front and at its back.
pub open spec fn trimmed_by(text: Seq<char>, marked: Seq<bool>) -> Seq<char>
    recommends
        marked.len() == text.len(),
{
    if leading(marked, true) >= text.len() {
        Seq::empty()
    } else {
        text.subrange(leading(marked, true) as int, text.len() - trailing(marked, true))
    }
}

/// The longest runs of characters that are not marked, in order.
pub open spec fn split_by(text: Seq<char>, marked: Seq<bool>) -> Seq<Seq<char>>
    recommends
        marked.len() == text.len(),
    decreases text.len(),
{
    if text.len() == 0 || marked.len() != text.len() {
        Seq::empty()
    } else if marked.first() {
        split_by(text.drop_first(), marked.drop_first())
    } else {
        let len = leading(marked, false);
        if len >= text.len() {
            seq![text]
        } else {
            seq![text.take(len as int)] + split_by(
                text.skip(len as int + 1),
                marked.skip(len as int + 1),
            )
        }
    }
}

/// The characters of a text that are marked, in order.
pub open spec fn kept_by(text: Seq<char>, marked: Seq<bool>) -> Seq<char>
    recommends
        marked.len() == text.len(),
    decreases text.len(),
{
    if text.len() == 0 || marked.len() != text.len() {
        Seq::empty()
    } else if marked.last() {
        kept_by(text.drop_last(), marked.drop_last()).push(text.last())
    } else {
        kept_by(text.drop_last(), marked.drop_last())
    }
}

/// A text without its leading and trailing white space.
pub open spec fn trimmed(text: Seq<char>) -> Seq<char> {
    trimmed_by(text, white_flags(text))
}

/// The words of a text: its longest runs of characters that are not white
/// space, in order.
pub open spec fn split_words(text: Seq<char>) -> Seq<Seq<char>> {
    split_by(text, white_flags(text))
}

/// The character sequences of a list of strings.
pub open spec fn string_views(strings: Seq<String>) -> Seq<Seq<char>> {
    Seq::new(strings.len(), |i: int| strings[i]@)
}

/// `char::is_whitespace`: whether the character has the Unicode property
/// `White_Space`.
#[verifier::external_body]
pub(crate) fn is_white_space(c: char) -> (white: bool)
    ensures
        white == white_space(c),
{
    c.is_whitespace()
}

/// `str::to_lowercase`: the lower-case form of the text under the Unicode
/// case mapping, as a new string.
#[verifier::external_body]
pub(crate) fn lowercase_text(text: &str) -> (lower: String)
    ensures
        lower@ == lowercase(text@),
{
    text.to_lowercase()
}

/// `str::eq`: whether two texts hold the same characters.
#[verifier::external_body]
pub(crate) fn same_text(left: &str, right: &str) -> (same: bool)
    ensures
        same == (left@ == right@),
{
    left == right
}

/// The value of a decimal digit, if the character is one.
pub open spec fn digit_value(c: char) -> Option<nat> {
    if '0' <= c <= '9' {
        Some((c as u32 - '0' as u32) as nat)
    } else {
        None
    }
}

/// Whether a text is made of decimal digits only.
pub open spec fn all_digits(text: Seq<char>) -> bool {
    forall|i: int| 0 <= i < text.len() ==> digit_value(#[trigger] text[i]) is Some
}

/// The number that a text of decimal digits denotes.
pub open spec fn digits_number(text: Seq<char>) -> nat
    decreases text.len(),
{
    if text.len() == 0 {
        0
    } else {
        10 * digits_number(text.drop_last()) + match digit_value(text.last()) {
            Some(d) => d,
            None => 0,
        }
    }
}

/// A text without the plus sign that may open a number.
pub open spec fn unsigned_part(text: Seq<char>) -> Seq<char> {
    if text.len() > 0 && text.first() == '+' {
        text.drop_first()
    } else {
        text
    }
}

/// The number that a text denotes in decimal notation: an optional plus
/// sign and then at least one digit and nothing else. A number that does
/// not fit in 64 bits is none.
pub open spec fn decimal_value(text: Seq<char>) -> Option<u64> {
    let digits = unsigned_part(text);
    if digits.len() > 0 && all_digits(digits) && digits_number(digits) <= u64::MAX {
        Some(digits_number(digits) as u64)
    } else {
        None
    }
}

/// A longer text of digits denotes a number at least as large as any of
/// its prefixes does.
pub proof fn lemma_digits_number_grows(text: Seq<char>, k: int)
    requires
        0 <= k <= text.len(),
    ensures
        digits_number(text.take(k)) <= digits_number(text),
    decreases text.len(),
{
    if k == text.len() {
        assert(text.take(k) =~= text);
    } else {
        lemma_digits_number_grows(text.drop_last(), k);
        assert(text.drop_last().take(k) =~= text.take(k));
    }
}

/// Reads a number in decimal notation.
pub fn parse_decimal(text: &str) -> (value: Option<u64>)
    ensures
        value == decimal_value(text@),
{
    broadcast use vstd::string::is_ascii_spec_bytes;

    if !text.is_ascii() {
        proof {
            let digits = unsigned_part(text@);
            if digits.len() > 0 && all_digits(digits) {
                let i = choose|i: int|
                    0 <= i < text@.len() && !('\0' <= #[trigger] text@[i] <= '\u{7f}');
                if digits.len() != text@.len() && i > 0 {
                    assert(digits[i - 1] == text@[i]);
                }
            }
        }
        return None;
    }
    let len: usize = text.unicode_len();
    let start: usize = if len > 0 && text.get_ascii(0) == 43 {
        1
    } else {
        0
    };
    let ghost digits = unsigned_part(text@);
    if start == len {
        return None;
    }
    let mut value: u64 = 0;
    let mut i: usize = start;
    while i < len
        invariant
            start <= i <= len,
            len == text@.len(),
            text.is_ascii(),
            digits == text@.skip(start as int),
            digits == unsigned_part(text@),
            all_digits(digits.take(i - start)),
            value == digits_number(digits.take(i - start)),
        decreases len - i,
    {
        let byte: u8 = text.get_ascii(i);
        let ghost c = text@[i as int];
        assert(digits[i - start] == c);
        let ghost seen = digits.take(i - start + 1);
        assert(seen.drop_last() =~= digits.take(i - start));
        if byte < 48 || byte > 57 {
            return None;
        }
        let digit: u64 = (byte - 48) as u64;
        proof {
            lemma_digits_number_grows(digits, i - start + 1);
        }
        let scaled = match value.checked_mul(10) {
            Some(scaled) => scaled,
            None => {
                return None;
            },
        };
        value = match scaled.checked_add(digit) {
            Some(sum) => sum,
            None => {
                return None;
            },
        };
        assert(all_digits(seen)) by {
            assert forall|j: int| 0 <= j < seen.len() implies digit_value(
                #[trigger] seen[j],
            ) is Some by {}
        }
        i += 1;
    }
    assert(digits.take(len - start) =~= digits);
    Some(value)
}

/// Whether a character is a letter or a digit in the sense of Unicode.
pub uninterp spec fn alphanumeric(c: char) -> bool;

/// `char::is_alphanumeric`: whether the character is alphabetic or numeric
/// in the sense of Unicode.
#[verifier::external_body]
pub(crate) fn is_alphanumeric(c: char) -> (letter_or_digit: bool)
    ensures
        letter_or_digit == alphanumeric(c),
{
    c.is_alphanumeric()
}

/// Gathers the characters of a text, in order, in a vector.
pub fn text_chars(text: &str) -> (chars: Vec<char>)
    ensures
        chars@ == text@,
{
    broadcast use vstd::string::group_string_axioms;

    let mut chars: Vec<char> = Vec::new();
    let mut rest = text.chars();
    loop
        invariant
            chars@ + IteratorSpec::remaining(&rest) == text@,
            IteratorSpec::obeys_prophetic_iter_laws(&rest),
            IteratorSpec::decrease(&rest) is Some,
        ensures
            chars@ == text@,
        decreases IteratorSpec::decrease(&rest)->0,
    {
        match rest.next() {
            Some(c) => {
                chars.push(c);
            },
            None => {
                break ;
            },
        }
    }
    chars
}

/// `String::push`: the character is appended to the string.
#[verifier::external_body]
fn push_char(text: &mut String, c: char)
    ensures
        final(text)@ == old(text)@.push(c),
{
    text.push(c);
}

/// Makes a string of the given characters, in order.
pub fn chars_text(chars: &Vec<char>) -> (text: String)
    ensures
        text@ == chars@,
{
    let mut text = String::new();
    let mut i: usize = 0;
    while i < chars.len()
        invariant
            i <= chars.len(),
            text@ == chars@.take(i as int),
        decreases chars.len() - i,
    {
        push_char(&mut text, chars[i]);
        i += 1;
    }
    text
}

/// A text in which every `from` is replaced by `to`.
pub open spec fn replaced(text: Seq<char>, from: char, to: char) -> Seq<char> {
    Seq::new(text.len(), |i: int| if text[i] == from { to } else { text[i] })
}

/// Replaces every `from` in `text` by `to`.
pub fn replace_char(text: &str, from: char, to: char) -> (result: String)
    ensures
        result@ == replaced(text@, from, to),
{
    let chars = text_chars(text);
    let mut changed: Vec<char> = Vec::new();
    let mut i: usize = 0;
    while i < chars.len()
        invariant
            i <= chars.len(),
            chars@ == text@,
            changed@ == replaced(text@, from, to).take(i as int),
        decreases chars.len() - i,
    {
        let c = chars[i];
        changed.push(if c == from { to } else { c });
        i += 1;
    }
    chars_text(&changed)
}

/// Where `needle` first occurs in `haystack` at or after `from`.
pub open spec fn occurrence_from(haystack: Seq<char>, needle: Seq<char>, from: int) -> Option<int>
    decreases haystack.len() - from,
{
    if from < 0 || from + needle.len() > haystack.len() {
        None
    } else if haystack.subrange(from, from + needle.len()) == needle {
        Some(from)
    } else if from < haystack.len() {
        occurrence_from(haystack, needle, from + 1)
    } else {
        None
    }
}

/// Where `needle` first occurs in `haystack`.
pub open spec fn first_occurrence(haystack: Seq<char>, needle: Seq<char>) -> Option<int> {
    occurrence_from(haystack, needle, 0)
}

fn occurs_at(haystack: &Vec<char>, needle: &Vec<char>, at: usize) -> (found: bool)
    requires
        at + needle.len() <= haystack.len(),
    ensures
        found == (haystack@.subrange(at as int, at + needle@.len()) == needle@),
{
    let ghost window = haystack@.subrange(at as int, at + needle@.len());
    let mut j: usize = 0;
    while j < needle.len()
        invariant
            j <= needle.len(),
            at + needle.len() <= haystack.len(),
            window == haystack@.subrange(at as int, at + needle@.len()),
            forall|k: int| 0 <= k < j ==> window[k] == needle@[k],
        decreases needle.len() - j,
    {
        if haystack[at + j] != needle[j] {
            return false;
        }
        j += 1;
    }
    assert(window =~= needle@);
    true
}

/// Finds where `needle` first occurs in `haystack`.
pub fn find_chars(haystack: &Vec<char>, needle: &Vec<char>) -> (position: Option<usize>)
    ensures
        match position {
            Some(at) => first_occurrence(haystack@, needle@) == Some(at as int) && at
                + needle.len() <= haystack.len(),
            None => first_occurrence(haystack@, needle@) is None,
        },
{
    if needle.len() > haystack.len() {
        return None;
    }
    if needle.len() == 0 {
        assert(haystack@.subrange(0, 0) =~= needle@);
        return Some(0);
    }
    let last: usize = haystack.len() - needle.len();
    let mut i: usize = 0;
    while i <= last
        invariant
            i <= last + 1,
            last < haystack.len(),
            last == haystack.len() - needle.len(),
            first_occurrence(haystack@, needle@) == occurrence_from(haystack@, needle@, i as int),
        decreases last + 1 - i,
    {
        if occurs_at(haystack, needle, i) {
            return Some(i);
        }
        i += 1;
    }
    None
}

/// Marks each character of `chars` that is white space.
pub fn mark_white_space(chars: &Vec<char>) -> (marked: Vec<bool>)
    ensures
        marked@ == white_flags(chars@),
{
    let mut marked: Vec<bool> = Vec::new();
    let mut i: usize = 0;
    while i < chars.len()
        invariant
            i <= chars.len(),
            marked@ == white_flags(chars@).take(i as int),
        decreases chars.len() - i,
    {
        marked.push(is_white_space(chars[i]));
        assert(marked@ =~= white_flags(chars@).take(i + 1));
        i += 1;
    }
    assert(white_flags(chars@).take(chars.len() as int) =~= white_flags(chars@));
    marked
}

/// Copies the characters of `chars` from `from` up to `to`.
fn slice_chars(chars: &Vec<char>, from: usize, to: usize) -> (part: Vec<char>)
    requires
        from <= to <= chars.len(),
    ensures
        part@ == chars@.subrange(from as int, to as int),
{
    let mut part: Vec<char> = Vec::new();
    let mut i: usize = from;
    while i < to
        invariant
            from <= i <= to,
            to <= chars.len(),
            part@ == chars@.subrange(from as int, i as int),
        decreases to - i,
    {
        part.push(chars[i]);
        assert(part@ =~= chars@.subrange(from as int, i + 1));
        i += 1;
    }
    part
}

/// Removes the characters marked at the front and at the back.
pub fn trim_marked(chars: &Vec<char>, marked: &Vec<bool>) -> (inner: Vec<char>)
    requires
        marked.len() == chars.len(),
    ensures
        inner@ == trimmed_by(chars@, marked@),
{
    let mut start: usize = 0;
    assert(marked@.skip(0) =~= marked@);
    while start < marked.len() && marked[start]
        invariant
            start <= marked.len(),
            leading(marked@, true) == start + leading(marked@.skip(start as int), true),
        decreases marked.len() - start,
    {
        assert(marked@.skip(start as int).drop_first() =~= marked@.skip(start + 1));
        start += 1;
    }
    if start == marked.len() {
        assert(marked@.skip(start as int) =~= Seq::<bool>::empty());
        return Vec::new();
    }
    assert(marked@.skip(start as int).first() == marked@[start as int]);
    assert(leading(marked@, true) == start);
    let mut end: usize = marked.len();
    assert(marked@.take(end as int) =~= marked@);
    while end > start && marked[end - 1]
        invariant
            start < end <= marked.len(),
            !marked@[start as int],
            leading(marked@, true) == start,
            trailing(marked@, true) == (marked.len() - end) + trailing(
                marked@.take(end as int),
                true,
            ),
        decreases end,
    {
        assert(marked@.take(end as int).drop_last() =~= marked@.take(end - 1));
        end -= 1;
    }
    assert(end > start);
    assert(marked@.take(end as int).last() == marked@[end - 1]);
    assert(trailing(marked@, true) == marked.len() - end);
    slice_chars(chars, start, end)
}

/// The longest runs of characters that are not marked, in order.
pub fn split_marked(chars: &Vec<char>, marked: &Vec<bool>) -> (words: Vec<String>)
    requires
        marked.len() == chars.len(),
    ensures
        string_views(words@) == split_by(chars@, marked@),
{
    let mut words: Vec<String> = Vec::new();
    let mut i: usize = 0;
    assert(chars@.skip(0) =~= chars@);
    assert(marked@.skip(0) =~= marked@);
    assert(string_views(words@) =~= Seq::<Seq<char>>::empty());
    while i < chars.len()
        invariant
            i <= chars.len(),
            marked.len() == chars.len(),
            split_by(chars@, marked@) == string_views(words@) + split_by(
                chars@.skip(i as int),
                marked@.skip(i as int),
            ),
        decreases chars.len() - i,
    {
        let ghost rest = chars@.skip(i as int);
        let ghost rest_marked = marked@.skip(i as int);
        if marked[i] {
            assert(rest.drop_first() =~= chars@.skip(i + 1));
            assert(rest_marked.drop_first() =~= marked@.skip(i + 1));
            i += 1;
        } else {
            let mut end: usize = i;
            while end < chars.len() && !marked[end]
                invariant
                    i <= end <= chars.len(),
                    marked.len() == chars.len(),
                    rest_marked == marked@.skip(i as int),
                    leading(rest_marked, false) == (end - i) + leading(
                        marked@.skip(end as int),
                        false,
                    ),
                decreases chars.len() - end,
            {
                assert(marked@.skip(end as int).drop_first() =~= marked@.skip(end + 1));
                end += 1;
            }
            assert(leading(rest_marked, false) == end - i) by {
                if end == chars.len() {
                    assert(marked@.skip(end as int) =~= Seq::<bool>::empty());
                }
            }
            let part = slice_chars(chars, i, end);
            let word = chars_text(&part);
            let ghost earlier = string_views(words@);
            words.push(word);
            proof {
                assert(string_views(words@) =~= earlier.push(word@));
                assert(rest.take(end - i) =~= chars@.subrange(i as int, end as int));
                if end < chars.len() {
                    assert(rest.skip(end - i + 1) =~= chars@.skip(end + 1));
                    assert(rest_marked.skip(end - i + 1) =~= marked@.skip(end + 1));
                    assert(earlier + (seq![word@] + split_by(
                        chars@.skip(end + 1),
                        marked@.skip(end + 1),
                    )) =~= earlier.push(word@) + split_by(
                        chars@.skip(end + 1),
                        marked@.skip(end + 1),
                    ));
                } else {
                    assert(rest =~= word@);
                    assert(chars@.skip(chars.len() as int) =~= Seq::<char>::empty());
                    assert(earlier + seq![word@] =~= earlier.push(word@) + Seq::<
                        Seq<char>,
                    >::empty());
                }
            }
            i = if end < chars.len() {
                end + 1
            } else {
                end
            };
        }
    }
    assert(chars@.skip(chars.len() as int) =~= Seq::<char>::empty());
    assert(string_views(words@) + Seq::<Seq<char>>::empty() =~= string_views(words@));
    words
}

/// The characters that are marked, in order.
pub fn keep_marked(chars: &Vec<char>, marked: &Vec<bool>) -> (kept: Vec<char>)
    requires
        marked.len() == chars.len(),
    ensures
        kept@ == kept_by(chars@, marked@),
{
    let mut kept: Vec<char> = Vec::new();
    let mut i: usize = 0;
    assert(chars@.take(0) =~= Seq::<char>::empty());
    while i < chars.len()
        invariant
            i <= chars.len(),
            marked.len() == chars.len(),
            kept@ == kept_by(chars@.take(i as int), marked@.take(i as int)),
        decreases chars.len() - i,
    {
        assert(chars@.take(i + 1).drop_last() =~= chars@.take(i as int));
        assert(marked@.take(i + 1).drop_last() =~= marked@.take(i as int));
        if marked[i] {
            kept.push(chars[i]);
        }
        i += 1;
    }
    assert(chars@.take(chars.len() as int) =~= chars@);
    assert(marked@.take(chars.len() as int) =~= marked@);
    kept
}

/// Removes leading and trailing white space.
pub fn trim_text(text: &str) -> (inner: String)
    ensures
        inner@ == trimmed(text@),
{
    let chars = text_chars(text);
    let marked = mark_white_space(&chars);
    let inner = trim_marked(&chars, &marked);
    chars_text(&inner)
}

/// Splits a text into its words: the longest runs of characters that are
/// not white space.
pub fn split_text(text: &str) -> (words: Vec<String>)
    ensures
        string_views(words@) == split_words(text@),
{
    let chars = text_chars(text);
    let marked = mark_white_space(&chars);
    split_marked(&chars, &marked)
}

} // verus!
