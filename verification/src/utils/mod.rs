//! Small helpers shared by the enforcer and the editor backend.

use crate::enforcer::error::Span;
use crate::highlight::{Position, Range};
use crate::utils::rope::{char_line, char_to_line, line_char, line_to_char, rope_text};
use vstd::prelude::*;

pub mod location;
pub mod packages;
pub mod paths;
pub mod pool;
pub mod progress;
pub mod rope;
pub mod text;
pub mod xml;

verus! {

/// The line and column of the character at `index`: the line on which it stands, and its
/// distance from the first character of that line. Nothing where the text has no such place.
pub open spec fn char_position(text: Seq<char>, index: int) -> Option<Position> {
    match char_line(text, index) {
        Some(line) => match line_char(text, line) {
            Some(first) => if 0 <= first <= index && 0 <= line <= usize::MAX {
                Some(Position { line: line as usize, position: (index - first) as usize })
            } else {
                None
            },
            None => None,
        },
        None => None,
    }
}

/// The range in lines and columns that a span of characters covers in a text.
pub open spec fn spanned(text: Seq<char>, span: Span) -> Option<Range> {
    match (char_position(text, span.start as int), char_position(text, span.end as int)) {
        (Some(start), Some(end)) => Some(Range { start, end }),
        _ => None,
    }
}

/// The line and column of the character at `index`.
fn position_of(content: &ropey::Rope, index: usize) -> (found: Option<Position>)
    ensures
        found == char_position(rope_text(*content), index as int),
{
    let line = match char_to_line(content, index) {
        Some(line) => line,
        None => return None,
    };
    let first = match line_to_char(content, line) {
        Some(first) => first,
        None => return None,
    };
    match index.checked_sub(first) {
        Some(position) => Some(Position { line, position }),
        None => None,
    }
}

/// Turns a span of characters into a range of lines and columns, where the text is long
/// enough to hold the span.
pub fn span_to_range(content: &ropey::Rope, span: Span) -> (range: Option<Range>)
    ensures
        range == spanned(rope_text(*content), span),
{
    let start = match position_of(content, span.start) {
        Some(start) => start,
        None => return None,
    };
    let end = match position_of(content, span.end) {
        Some(end) => end,
        None => return None,
    };
    Some(Range { start, end })
}

} // verus!
