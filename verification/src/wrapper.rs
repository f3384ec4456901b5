//! Breaking a text into lines of a given width.

use vstd::prelude::*;
use vstd::string::*;
use vstd::utf8::*;
use crate::text::{
    byte_range,
    is_white_space,
    lemma_ascii_byte_range,
    lemma_boundary_in_range,
    lemma_cut_at_boundary,
    lemma_trimmed_length,
    lemma_white_ends,
    on_boundary,
    split_bytes,
    trim,
    trimmed,
};

verus! {

/// The byte of a space. In UTF-8 it stands for a space wherever it occurs.
pub const SPACE: u8 = 0x20;

/// The offset of the last space among `bytes`, or -1 where there is none.
pub open spec fn last_space(bytes: Seq<u8>) -> int
    decreases bytes.len(),
{
    if bytes.len() == 0 {
        -1
    } else if bytes.last() == SPACE {
        bytes.len() - 1
    } else {
        last_space(bytes.drop_last())
    }
}

/// Where to break a text of which `head` is the first `width` bytes: at the
/// last space of `head`, or after `head` where it has no space. The place is
/// a byte offset.
pub open spec fn break_offset(head: Seq<char>, width: nat) -> int {
    let space = last_space(encode_utf8(head));
    if space >= 0 {
        space
    } else {
        width as int
    }
}

/// Where the first line of a text that is longer than `width` ends, as a
/// byte offset.
pub open spec fn first_break(text: Seq<char>, width: nat) -> int {
    break_offset(byte_range(text, 0, width as int), width)
}

/// The first line of a text that is longer than `width`: what stands before
/// the break, without the white space at its ends.
pub open spec fn first_line(text: Seq<char>, width: nat) -> Seq<char> {
    trimmed(byte_range(text, 0, first_break(text, width)))
}

/// What is left of a text that is longer than `width` after its first line:
/// what stands from the break on, without the white space at its ends.
pub open spec fn remainder(text: Seq<char>, width: nat) -> Seq<char> {
    trimmed(byte_range(text, first_break(text, width), encode_utf8(text).len() as int))
}

/// The text can be wrapped at `width`: it fits, or byte offset `width` does
/// not fall inside one of its characters and what is left after the first
/// line can be wrapped in turn. ASCII text can always be wrapped.
pub open spec fn wrappable(text: Seq<char>, width: nat) -> bool
    decreases text.len(),
    via wrappable_decreases
{
    ||| width == 0
    ||| text.len() <= width
    ||| on_boundary(text, width as int) && wrappable(remainder(text, width), width)
}

#[via_fn]
proof fn wrappable_decreases(text: Seq<char>, width: nat) {
    if width != 0 && text.len() > width && on_boundary(text, width as int) {
        lemma_first_break(text, width);
    }
}

/// The text in lines. A text of at most `width` characters, and any text
/// where `width` is zero, is one line and stays as it is. A longer text
/// gives its first line, a line feed, and what is left, wrapped in the same
/// way. The width counts characters where it is held against the length of
/// the text, and bytes where it says how far the first line may reach.
pub open spec fn wrapped(text: Seq<char>, width: nat) -> Seq<char>
    decreases text.len(),
    when wrappable(text, width)
    via wrapped_decreases
{
    if width == 0 || text.len() <= width {
        text
    } else {
        first_line(text, width) + seq!['\n'] + wrapped(remainder(text, width), width)
    }
}

#[via_fn]
proof fn wrapped_decreases(text: Seq<char>, width: nat) {
    if width != 0 && text.len() > width {
        lemma_first_break(text, width);
    }
}

/// The last space among some bytes lies among them, is a space, and has no
/// space after it.
pub proof fn lemma_last_space(bytes: Seq<u8>)
    ensures
        -1 <= last_space(bytes) < bytes.len(),
        last_space(bytes) >= 0 ==> bytes[last_space(bytes)] == SPACE,
        forall|i: int| last_space(bytes) < i < bytes.len() ==> #[trigger] bytes[i] != SPACE,
    decreases bytes.len(),
{
    if bytes.len() > 0 && bytes.last() != SPACE {
        let front = bytes.drop_last();
        lemma_last_space(front);
        assert forall|i: int| last_space(bytes) < i < bytes.len() implies #[trigger] bytes[i] != SPACE by {
            if i < front.len() {
                assert(bytes[i] == front[i]);
            }
        }
    }
}

/// A text that starts with the byte of a space starts with a space.
proof fn lemma_starts_with_space(text: Seq<char>)
    requires
        text.len() > 0,
        encode_utf8(text)[0] == SPACE,
    ensures
        text[0] == ' ',
{
    encode_utf8_first_scalar(text);
    assert(0x20u8 & 0x7f == 0x20u8) by (bit_vector);
    char_u32_cast(text[0], 0x20u32);
}

/// Where a text is longer than the width and can be cut there, its first
/// break falls on a boundary no further in than the width, and what is left
/// after the first line is shorter than the text.
pub proof fn lemma_first_break(text: Seq<char>, width: nat)
    requires
        width > 0,
        text.len() > width,
        on_boundary(text, width as int),
    ensures
        0 <= first_break(text, width) <= width <= encode_utf8(text).len(),
        on_boundary(text, first_break(text, width)),
        encode_utf8(byte_range(text, 0, width as int)) == encode_utf8(text).subrange(0, width as int),
        remainder(text, width).len() < text.len(),
{
    let bytes = encode_utf8(text);
    let head = bytes.subrange(0, width as int);
    let cut = first_break(text, width);
    encode_utf8_valid_utf8(text);
    lemma_boundary_in_range(text, width as int);
    valid_utf8_split(bytes, width as int);
    decode_utf8_encode_utf8(head);
    lemma_last_space(head);
    if last_space(head) >= 0 {
        is_char_boundary_iff_not_is_continuation_byte(bytes, cut);
    }
    lemma_cut_at_boundary(text, cut);
    let rest = byte_range(text, cut, bytes.len() as int);
    lemma_trimmed_length(rest);
    if cut == 0 {
        encode_utf8_decode_utf8(text);
        lemma_starts_with_space(text);
    }
}

/// ASCII text can be wrapped at any width.
pub proof fn lemma_ascii_wrappable(text: Seq<char>, width: nat)
    requires
        is_ascii_chars(text),
    ensures
        wrappable(text, width),
    decreases text.len(),
{
    if width != 0 && text.len() > width {
        lemma_ascii_byte_range(text, 0, width as int);
        lemma_first_break(text, width);
        let cut = first_break(text, width);
        lemma_ascii_byte_range(text, cut, text.len() as int);
        let rest = text.subrange(cut, text.len() as int);
        lemma_white_ends(rest);
        lemma_ascii_wrappable(remainder(text, width), width);
    }
}

/// Wraps text.
pub struct Wrapper {}

impl Wrapper {
    /// Whether `string` can be wrapped at `col_num`, as `wrap` asks.
    pub fn can_wrap(string: &str, col_num: usize) -> (ready: bool)
        ensures
            ready == wrappable(string@, col_num as nat),
        decreases string@.len(),
    {
        if col_num == 0 || string.unicode_len() <= col_num {
            return true;
        }
        if !string.is_char_boundary(col_num) {
            return false;
        }
        proof {
            lemma_first_break(string@, col_num as nat);
        }
        let (head, _) = split_bytes(string, col_num);
        let wrap_index = Self::wrap_index(head, &col_num);
        let (_, after) = split_bytes(string, wrap_index);
        Self::can_wrap(trim(after), col_num)
    }

    /// Breaks `string` into lines, joined by line feeds. With `col_num` zero,
    /// or where the text has at most `col_num` characters, it comes back as
    /// it is. Else the first line ends at the last space among the first
    /// `col_num` bytes, or after them where they hold no space, and what is
    /// left is wrapped in the same way; each line loses the white space at
    /// its ends.
    pub fn wrap(string: String, col_num: usize) -> (lines: String)
        requires
            wrappable(string@, col_num as nat),
        ensures
            lines@ == wrapped(string@, col_num as nat),
        decreases string@.len(),
    {
        let text = string.as_str();
        if col_num == 0 || text.unicode_len() <= col_num {
            return string;
        }
        proof {
            lemma_first_break(text@, col_num as nat);
        }
        let (head, _) = split_bytes(text, col_num);
        let wrap_index = Self::wrap_index(head, &col_num);
        let (before, after) = split_bytes(text, wrap_index);
        let line = trim(before);
        let unwrapped = trim(after);
        let remaining = Self::wrap(String::from_str(unwrapped), col_num);
        let mut lines = String::from_str(line);
        proof {
            reveal_strlit("\n");
        }
        lines.append("\n");
        lines.append(remaining.as_str());
        lines
    }

    /// The offset of the last space in `string`, or `col_num` where it has none.
    fn wrap_index(string: &str, col_num: &usize) -> (index: usize)
        ensures
            index == break_offset(string@, *col_num as nat),
    {
        let bytes = string.as_bytes();
        let mut at: usize = bytes.len();
        proof {
            assert(bytes@.take(at as int) =~= bytes@);
        }
        while at > 0
            invariant
                bytes@ == encode_utf8(string@),
                at <= bytes@.len(),
                last_space(bytes@) == last_space(bytes@.take(at as int)),
            decreases at,
        {
            if bytes[at - 1] == SPACE {
                return at - 1;
            }
            proof {
                assert(bytes@.take(at as int).drop_last() =~= bytes@.take(at - 1));
            }
            at -= 1;
        }
        *col_num
    }
}

} // verus!
