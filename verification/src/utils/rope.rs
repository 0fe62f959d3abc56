//! The text of a document, held in a `ropey::Rope`.
//!
//! Verus does not look inside a rope. What the analyses need of it is stated
//! here, method by method, and believed without proof.

use vstd::prelude::*;
use vstd::utf8::encode_utf8;
use ropey::Rope;

verus! {

/// `ropey::Rope`: a text, carried through as it is.
#[verifier::external_type_specification]
#[verifier::external_body]
pub struct ExRope(ropey::Rope);

/// `ropey::Error`: why an index was refused.
#[verifier::external_type_specification]
#[verifier::external_body]
pub struct ExRopeError(ropey::Error);

/// The characters that a rope holds, in order.
pub uninterp spec fn rope_text(rope: Rope) -> Seq<char>;

/// The number of lines that ropey counts in a text: one more than its
/// line breaks.
pub uninterp spec fn line_count(text: Seq<char>) -> int;

/// The line that ropey finds for a byte offset into the UTF-8 form of a text.
pub uninterp spec fn line_of_byte(text: Seq<char>, byte: int) -> int;

/// The index of the character that ropey finds for a byte offset.
pub uninterp spec fn char_of_byte(text: Seq<char>, byte: int) -> int;

/// The index of the first character of a line.
pub uninterp spec fn char_of_line(text: Seq<char>, line: int) -> int;

/// The byte offset at which a line starts.
pub uninterp spec fn byte_of_line(text: Seq<char>, line: int) -> int;

/// The UTF-8 form of a text.
pub open spec fn text_bytes(text: Seq<char>) -> Seq<u8> {
    encode_utf8(text)
}

/// The number of UTF-16 code units that a character takes.
pub open spec fn utf16_width(c: char) -> int {
    if c as u32 >= 0x10000 {
        2
    } else {
        1
    }
}

/// The number of UTF-16 code units that a text takes.
pub open spec fn utf16_len(text: Seq<char>) -> int
    decreases text.len(),
{
    if text.len() == 0 {
        0
    } else {
        utf16_len(text.drop_last()) + utf16_width(text.last())
    }
}

/// `Rope::new` gives a rope that holds no character.
pub assume_specification[ Rope::new ]() -> (rope: Rope)
    ensures
        rope_text(rope) == Seq::<char>::empty(),
;

/// `Rope::from_str` gives a rope that holds the characters of `text`.
pub assume_specification[ Rope::from_str ](text: &str) -> (rope: Rope)
    ensures
        rope_text(rope) == text@,
;

/// `Rope::len_bytes` is the length of the text in UTF-8.
pub assume_specification[ Rope::len_bytes ](rope: &Rope) -> (n: usize)
    ensures
        n == text_bytes(rope_text(*rope)).len(),
;

/// `Rope::byte` reads one byte of the UTF-8 form. It panics past the end,
/// so the index must lie inside the text.
pub assume_specification[ Rope::byte ](rope: &Rope, byte_idx: usize) -> (b: u8)
    requires
        byte_idx < text_bytes(rope_text(*rope)).len(),
    ensures
        b == text_bytes(rope_text(*rope))[byte_idx as int],
;

/// `Rope::try_byte_to_line` fails past the end of the text, and otherwise
/// gives the line of the byte.
pub assume_specification[ Rope::try_byte_to_line ](rope: &Rope, byte_idx: usize) -> (r: Result<
    usize,
    ropey::Error,
>)
    ensures
        r is Ok <==> byte_idx <= text_bytes(rope_text(*rope)).len(),
        r matches Ok(line) ==> line == line_of_byte(rope_text(*rope), byte_idx as int),
;

/// `Rope::try_byte_to_char` fails past the end of the text, and otherwise
/// gives the index of the character that the byte belongs to.
pub assume_specification[ Rope::try_byte_to_char ](rope: &Rope, byte_idx: usize) -> (r: Result<
    usize,
    ropey::Error,
>)
    ensures
        r is Ok <==> byte_idx <= text_bytes(rope_text(*rope)).len(),
        r matches Ok(c) ==> c == char_of_byte(rope_text(*rope), byte_idx as int),
;

/// `Rope::try_line_to_char` fails past the line count, and otherwise gives
/// the index of the first character of the line.
pub assume_specification[ Rope::try_line_to_char ](rope: &Rope, line_idx: usize) -> (r: Result<
    usize,
    ropey::Error,
>)
    ensures
        r is Ok <==> line_idx <= line_count(rope_text(*rope)),
        r matches Ok(c) ==> c == char_of_line(rope_text(*rope), line_idx as int),
;

/// `Rope::try_line_to_byte` fails past the line count, and otherwise gives
/// the byte offset at which the line starts.
pub assume_specification[ Rope::try_line_to_byte ](rope: &Rope, line_idx: usize) -> (r: Result<
    usize,
    ropey::Error,
>)
    ensures
        r is Ok <==> line_idx <= line_count(rope_text(*rope)),
        r matches Ok(b) ==> b == byte_of_line(rope_text(*rope), line_idx as int),
;

/// `Rope::try_char_to_utf16_cu` fails past the number of characters, and
/// otherwise counts the UTF-16 code units of the characters before the index.
pub assume_specification[ Rope::try_char_to_utf16_cu ](rope: &Rope, char_idx: usize) -> (r: Result<
    usize,
    ropey::Error,
>)
    ensures
        r is Ok <==> char_idx <= rope_text(*rope).len(),
        r matches Ok(n) ==> n == utf16_len(rope_text(*rope).take(char_idx as int)),
;

/// `String::from` of a rope gives its characters as a string.
#[verifier::external_body]
pub(crate) fn rope_to_string(rope: &Rope) -> (text: String)
    ensures
        text@ == rope_text(*rope),
{
    String::from(rope)
}

} // verus!
