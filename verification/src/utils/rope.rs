//! Lines and offsets of a text, as the `ropey` crate counts them.

use vstd::prelude::*;

verus! {

/// A text held by the `ropey` crate.
#[verifier::external_type_specification]
#[verifier::external_body]
pub struct ExRope(ropey::Rope);

/// The characters that a rope holds, in order.
pub uninterp spec fn rope_text(rope: ropey::Rope) -> Seq<char>;

/// The line on which the character at `index` stands, as `ropey::Rope::try_char_to_line`
/// counts lines; nothing where the index lies beyond the end of the text.
pub uninterp spec fn char_line(text: Seq<char>, index: int) -> Option<int>;

/// The index of the first character of a line, as `ropey::Rope::try_line_to_char` gives it.
pub uninterp spec fn line_char(text: Seq<char>, line: int) -> Option<int>;

/// The line on which the byte at `offset` stands, as `ropey::Rope::try_byte_to_line` counts
/// lines.
pub uninterp spec fn byte_line(text: Seq<char>, offset: int) -> Option<int>;

/// The offset in bytes of the start of a line, as `ropey::Rope::try_line_to_byte` gives it.
pub uninterp spec fn line_byte(text: Seq<char>, line: int) -> Option<int>;

/// The number of lines of a text, as `ropey::Rope::len_lines` counts them.
pub uninterp spec fn line_total(text: Seq<char>) -> int;

/// The length in bytes of a line, its line break included, as `ropey::Rope::get_line` and
/// `ropey::RopeSlice::len_bytes` give it.
pub uninterp spec fn line_bytes(text: Seq<char>, line: int) -> Option<int>;

/// Calls `ropey::Rope::from_str`. The rope holds the characters of `text`.
#[verifier::external_body]
pub(crate) fn rope_from_str(text: &str) -> (rope: ropey::Rope)
    ensures
        rope_text(rope) == text@,
{
    ropey::Rope::from_str(text)
}

/// Calls `ropey::Rope::try_char_to_line`. The call succeeds for every index up to the number
/// of characters, that number included, and for no other. The contract names the line.
#[verifier::external_body]
pub(crate) fn char_to_line(rope: &ropey::Rope, index: usize) -> (line: Option<usize>)
    ensures
        line.is_some() <==> index <= rope_text(*rope).len(),
        match line {
            Some(found) => char_line(rope_text(*rope), index as int) == Some(found as int),
            None => char_line(rope_text(*rope), index as int).is_none(),
        },
{
    rope.try_char_to_line(index).ok()
}

/// Calls `ropey::Rope::try_line_to_char`. The contract only names the result.
#[verifier::external_body]
pub(crate) fn line_to_char(rope: &ropey::Rope, line: usize) -> (index: Option<usize>)
    ensures
        match index {
            Some(found) => line_char(rope_text(*rope), line as int) == Some(found as int),
            None => line_char(rope_text(*rope), line as int).is_none(),
        },
{
    rope.try_line_to_char(line).ok()
}

/// Calls `ropey::Rope::try_byte_to_line`. The contract only names the result.
#[verifier::external_body]
pub(crate) fn byte_to_line(rope: &ropey::Rope, offset: usize) -> (line: Option<usize>)
    ensures
        match line {
            Some(found) => byte_line(rope_text(*rope), offset as int) == Some(found as int),
            None => byte_line(rope_text(*rope), offset as int).is_none(),
        },
{
    rope.try_byte_to_line(offset).ok()
}

/// Calls `ropey::Rope::try_line_to_byte`. The contract only names the result.
#[verifier::external_body]
pub(crate) fn line_to_byte(rope: &ropey::Rope, line: usize) -> (offset: Option<usize>)
    ensures
        match offset {
            Some(found) => line_byte(rope_text(*rope), line as int) == Some(found as int),
            None => line_byte(rope_text(*rope), line as int).is_none(),
        },
{
    rope.try_line_to_byte(line).ok()
}

/// Calls `ropey::Rope::len_lines`: one more than the number of line breaks, so at least one.
#[verifier::external_body]
pub(crate) fn len_lines(rope: &ropey::Rope) -> (lines: usize)
    ensures
        lines == line_total(rope_text(*rope)),
        lines >= 1,
{
    rope.len_lines()
}

/// Calls `ropey::Rope::get_line` and `ropey::RopeSlice::len_bytes`. The contract only names
/// the result.
#[verifier::external_body]
pub(crate) fn line_len_bytes(rope: &ropey::Rope, line: usize) -> (length: Option<usize>)
    ensures
        match length {
            Some(found) => line_bytes(rope_text(*rope), line as int) == Some(found as int),
            None => line_bytes(rope_text(*rope), line as int).is_none(),
        },
{
    rope.get_line(line).map(|slice| slice.len_bytes())
}

} // verus!
