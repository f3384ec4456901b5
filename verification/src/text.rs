//! What the text utilities share: counting letters, and reading a text by
//! byte offsets into its UTF-8 form.

use vstd::prelude::*;
use vstd::string::*;
use vstd::utf8::*;

verus! {

/// How often `letter` occurs in `text`.
pub open spec fn occurrences(text: Seq<char>, letter: char) -> nat
    decreases text.len(),
{
    if text.len() == 0 {
        0
    } else {
        occurrences(text.drop_last(), letter) + if text.last() == letter {
            1nat
        } else {
            0nat
        }
    }
}

/// The characters that the bytes `from..to` of the UTF-8 form of `text`
/// spell. It is meant for offsets that do not fall inside a character.
pub open spec fn byte_range(text: Seq<char>, from: int, to: int) -> Seq<char> {
    decode_utf8(encode_utf8(text).subrange(from, to))
}

/// Byte offset `at` of the UTF-8 form of `text` does not fall inside a
/// character.
pub open spec fn on_boundary(text: Seq<char>, at: int) -> bool {
    is_char_boundary(encode_utf8(text), at)
}

/// In ASCII text every character is one byte: each offset up to the length
/// is a boundary, and a range of bytes is the same range of characters.
pub proof fn lemma_ascii_byte_range(text: Seq<char>, from: int, to: int)
    requires
        is_ascii_chars(text),
        0 <= from <= to <= text.len(),
    ensures
        encode_utf8(text).len() == text.len(),
        on_boundary(text, from),
        on_boundary(text, to),
        byte_range(text, from, to) == text.subrange(from, to),
{
    let bytes = encode_utf8(text);
    let part = text.subrange(from, to);
    is_ascii_chars_encode_utf8(text);
    is_ascii_chars_encode_utf8(part);
    assert(encode_utf8(part) =~= bytes.subrange(from, to));
    encode_utf8_decode_utf8(part);
    encode_utf8_valid_utf8(text);
    lemma_ascii_boundary(text, from);
    lemma_ascii_boundary(text, to);
}

/// In ASCII text no offset up to the length falls inside a character.
proof fn lemma_ascii_boundary(text: Seq<char>, at: int)
    requires
        is_ascii_chars(text),
        0 <= at <= text.len(),
    ensures
        on_boundary(text, at),
{
    let bytes = encode_utf8(text);
    is_ascii_chars_encode_utf8(text);
    encode_utf8_valid_utf8(text);
    if at == text.len() {
        is_char_boundary_start_end_of_seq(bytes);
    } else {
        is_char_boundary_iff_not_is_continuation_byte(bytes, at);
    }
}

/// Counts how often `letter` occurs in `text`.
pub fn count_letter(text: &str, letter: char) -> (count: usize)
    ensures
        count == occurrences(text@, letter),
{
    let length = text.unicode_len();
    let mut count: usize = 0;
    for c in it: text.chars()
        invariant
            it.seq() == text@,
            length == text@.len(),
            count <= it.index(),
            count == occurrences(text@.take(it.index() as int), letter),
    {
        proof {
            assert(text@.take(it.index() + 1).drop_last() =~= text@.take(it.index() as int));
        }
        if c == letter {
            count += 1;
        }
    }
    proof {
        assert(text@.take(text@.len() as int) =~= text@);
    }
    count
}

/// Offsets into the bytes of a text that are boundaries lie within the bytes.
pub proof fn lemma_boundary_in_range(text: Seq<char>, at: int)
    requires
        on_boundary(text, at),
    ensures
        0 <= at <= encode_utf8(text).len(),
{
    encode_utf8_valid_utf8(text);
}

/// Cut at a boundary, a text falls into the characters before the cut and
/// the characters after it.
pub proof fn lemma_cut_at_boundary(text: Seq<char>, at: int)
    requires
        on_boundary(text, at),
    ensures
        text == byte_range(text, 0, at) + byte_range(text, at, encode_utf8(text).len() as int),
        at > 0 ==> byte_range(text, 0, at).len() > 0,
{
    let bytes = encode_utf8(text);
    encode_utf8_valid_utf8(text);
    encode_utf8_decode_utf8(text);
    decode_utf8_split(bytes, at);
    valid_utf8_split(bytes, at);
}

/// Cuts `text` at byte offset `at`, which does not fall inside a character.
pub fn split_bytes(text: &str, at: usize) -> (parts: (&str, &str))
    requires
        on_boundary(text@, at as int),
    ensures
        parts.0@ == byte_range(text@, 0, at as int),
        parts.1@ == byte_range(text@, at as int, encode_utf8(text@).len() as int),
{
    let parts = text.split_at(at);
    proof {
        encode_utf8_decode_utf8(parts.0@);
        encode_utf8_decode_utf8(parts.1@);
    }
    parts
}

/// White space as Unicode defines it (the property White_Space): the ASCII
/// controls from tab to carriage return, the space, and the line and
/// paragraph separators and wide and narrow spaces beyond ASCII.
pub open spec fn is_white_space(c: char) -> bool {
    ||| '\u{9}' <= c <= '\u{d}'
    ||| c == ' '
    ||| c == '\u{85}'
    ||| c == '\u{a0}'
    ||| c == '\u{1680}'
    ||| '\u{2000}' <= c <= '\u{200a}'
    ||| c == '\u{2028}'
    ||| c == '\u{2029}'
    ||| c == '\u{202f}'
    ||| c == '\u{205f}'
    ||| c == '\u{3000}'
}

/// How many characters of white space `text` begins with.
pub open spec fn leading_white(text: Seq<char>) -> nat
    decreases text.len(),
{
    if text.len() > 0 && is_white_space(text[0]) {
        1 + leading_white(text.drop_first())
    } else {
        0
    }
}

/// How many characters of white space `text` ends with.
pub open spec fn trailing_white(text: Seq<char>) -> nat
    decreases text.len(),
{
    if text.len() > 0 && is_white_space(text.last()) {
        1 + trailing_white(text.drop_last())
    } else {
        0
    }
}

/// `text` without the white space at its two ends. A text of white space
/// alone trims to the empty text.
pub open spec fn trimmed(text: Seq<char>) -> Seq<char> {
    if leading_white(text) == text.len() {
        Seq::empty()
    } else {
        text.subrange(leading_white(text) as int, text.len() - trailing_white(text))
    }
}

/// `text` begins with exactly `count` characters of white space.
pub proof fn lemma_leading_white(text: Seq<char>, count: int)
    requires
        0 <= count <= text.len(),
        forall|i: int| 0 <= i < count ==> is_white_space(#[trigger] text[i]),
        count < text.len() ==> !is_white_space(text[count]),
    ensures
        leading_white(text) == count,
    decreases text.len(),
{
    if count > 0 {
        let rest = text.drop_first();
        assert(forall|i: int| 0 <= i < count - 1 ==> is_white_space(#[trigger] rest[i]));
        lemma_leading_white(rest, count - 1);
    }
}

/// `text` ends with exactly `count` characters of white space.
pub proof fn lemma_trailing_white(text: Seq<char>, count: int)
    requires
        0 <= count <= text.len(),
        forall|i: int| text.len() - count <= i < text.len() ==> is_white_space(#[trigger] text[i]),
        count < text.len() ==> !is_white_space(text[text.len() - count - 1]),
    ensures
        trailing_white(text) == count,
    decreases text.len(),
{
    if count > 0 {
        let rest = text.drop_last();
        assert(forall|i: int| rest.len() - (count - 1) <= i < rest.len() ==> is_white_space(#[trigger] rest[i]));
        lemma_trailing_white(rest, count - 1);
    }
}

/// The white space at the two ends of a text does not overlap unless the
/// text is white space throughout.
pub proof fn lemma_white_ends(text: Seq<char>)
    ensures
        leading_white(text) <= text.len(),
        trailing_white(text) <= text.len(),
        leading_white(text) < text.len() ==> leading_white(text) + trailing_white(text) < text.len(),
        forall|i: int| 0 <= i < leading_white(text) ==> is_white_space(#[trigger] text[i]),
        leading_white(text) < text.len() ==> !is_white_space(text[leading_white(text) as int]),
        forall|i: int|
            text.len() - trailing_white(text) <= i < text.len() ==> is_white_space(#[trigger] text[i]),
    decreases text.len(),
{
    if text.len() > 0 {
        let front = text.drop_last();
        let back = text.drop_first();
        lemma_white_ends(front);
        lemma_white_ends(back);
        if is_white_space(text[0]) {
            assert forall|i: int| 0 <= i < leading_white(text) implies is_white_space(#[trigger] text[i]) by {
                if i > 0 {
                    assert(text[i] == back[i - 1]);
                }
            }
        }
        if is_white_space(text.last()) {
            assert forall|i: int| text.len() - trailing_white(text) <= i < text.len() implies is_white_space(
                #[trigger] text[i],
            ) by {
                if i < text.len() - 1 {
                    assert(text[i] == front[i]);
                }
            }
        }
    }
}

/// Trimming takes nothing but white space away: the result is no longer
/// than the text, and shorter where the text begins with white space.
pub proof fn lemma_trimmed_length(text: Seq<char>)
    ensures
        trimmed(text).len() <= text.len(),
        text.len() > 0 && is_white_space(text[0]) ==> trimmed(text).len() < text.len(),
{
    lemma_white_ends(text);
}

/// Whether `c` is white space.
pub fn is_whitespace(c: char) -> (white: bool)
    ensures
        white == is_white_space(c),
{
    ('\u{9}' <= c && c <= '\u{d}') || c == ' ' || c == '\u{85}' || c == '\u{a0}' || c == '\u{1680}' || ('\u{2000}'
        <= c && c <= '\u{200a}') || c == '\u{2028}' || c == '\u{2029}' || c == '\u{202f}' || c == '\u{205f}'
        || c == '\u{3000}'
}

/// The part of `text` between the white space at its two ends.
pub fn trim(text: &str) -> (inner: &str)
    ensures
        inner@ == trimmed(text@),
{
    let length = text.unicode_len();
    // The place of the first character that is no white space, once one is
    // `found`, and the place just after the last such character.
    let mut found = false;
    let mut start: usize = 0;
    let mut end: usize = 0;
    let mut at: usize = 0;
    for c in it: text.chars()
        invariant
            it.seq() == text@,
            length == text@.len(),
            at == it.index(),
            !found ==> start == at && end == 0,
            forall|i: int| 0 <= i < start ==> is_white_space(#[trigger] text@[i]),
            found ==> start < end <= at,
            found ==> !is_white_space(text@[start as int]),
            found ==> !is_white_space(text@[end - 1]),
            forall|i: int| found && end <= i < at ==> is_white_space(#[trigger] text@[i]),
    {
        if !is_whitespace(c) {
            if !found {
                found = true;
                start = at;
            }
            end = at + 1;
        } else if !found {
            start = at + 1;
        }
        at += 1;
    }
    proof {
        lemma_leading_white(text@, start as int);
        if found {
            lemma_trailing_white(text@, length - end);
        }
    }
    if found {
        text.substring_char(start, end)
    } else {
        text.substring_char(0, 0)
    }
}

} // verus!
