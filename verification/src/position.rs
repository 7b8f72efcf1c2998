//! Positions in a text in its three coordinate systems: character index,
//! byte offset, and line with column.

use crate::rope::{breaks_before, byte_offset, line_start};
use crate::selection::CharIndex;
use crate::syntax::Point;
use vstd::prelude::*;

verus! {

/// The line of the character at `char_index`; line 0 for an index beyond
/// the end of `text`.
pub open spec fn line_or_zero(text: Seq<char>, char_index: usize) -> nat {
    if char_index <= text.len() {
        breaks_before(text, char_index as int)
    } else {
        0
    }
}

/// The index of the first character of line `line_index`; 0 for a line
/// that `text` does not have.
pub open spec fn line_start_or_zero(text: Seq<char>, line_index: usize) -> int {
    match line_start(text, line_index as nat) {
        Some(start) => start,
        None => 0,
    }
}

/// The byte offset of the character at `char_index`; 0 for an index beyond
/// the end of `text`.
pub open spec fn byte_or_zero(text: Seq<char>, char_index: usize) -> int {
    if char_index <= text.len() {
        byte_offset(text, char_index as int) as int
    } else {
        0
    }
}

/// The point of row `row` for the character at `char_index`, where the row
/// starts at `row_start`: the column is the distance from the start of the
/// row, and 0 where there is no such row or it starts behind the character.
pub open spec fn point_in_row(row: usize, row_start: Option<int>, char_index: usize) -> Point {
    Point {
        row,
        column: match row_start {
            Some(start) => if char_index >= start {
                (char_index - start) as usize
            } else {
                0
            },
            None => 0,
        },
    }
}

/// The row and column of the character at `char_index` in `text`: its
/// line, and its distance from the start of that line; row 0 and column 0
/// for an index beyond the end of `text`.
pub open spec fn point_of(text: Seq<char>, char_index: usize) -> Point {
    if char_index <= text.len() {
        point_in_row(
            breaks_before(text, char_index as int) as usize,
            line_start(text, breaks_before(text, char_index as int)),
            char_index,
        )
    } else {
        Point { row: 0, column: 0 }
    }
}

/// The point of row `row` for the character at `char_index`.
pub fn point_at(row: usize, row_start: Option<usize>, char_index: CharIndex) -> (res: Point)
    ensures
        res == point_in_row(
            row,
            match row_start {
                Some(start) => Some(start as int),
                None => None,
            },
            char_index.0,
        ),
{
    let column = match row_start {
        Some(start) => if char_index.0 >= start {
            char_index.0 - start
        } else {
            0
        },
        None => 0,
    };
    Point { row, column }
}

} // verus!
