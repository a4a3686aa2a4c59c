//! Rows and columns of a text of bytes.

use vstd::prelude::*;

verus! {

/// The byte that ends a row.
pub const NEWLINE: u8 = 10;

/// A place in a text: a row, and the number of bytes before it on that row.
#[derive(Clone, Copy, Debug, PartialEq, Eq, Structural)]
pub struct Point {
    pub row: u32,
    pub column: u32,
}

impl Point {
    /// The place at `column` of `row`.
    pub fn new(row: u32, column: u32) -> (point: Point)
        ensures
            point == (Point { row, column }),
    {
        Point { row, column }
    }
}

/// The number of rows that end before `offset`.
pub open spec fn row_at(text: Seq<u8>, offset: int) -> nat
    decreases offset,
{
    if offset <= 0 {
        0
    } else {
        row_at(text, offset - 1) + if text[offset - 1] == NEWLINE {
            1nat
        } else {
            0nat
        }
    }
}

/// The number of bytes between the start of its row and `offset`.
pub open spec fn column_at(text: Seq<u8>, offset: int) -> nat
    decreases offset,
{
    if offset <= 0 || text[offset - 1] == NEWLINE {
        0
    } else {
        column_at(text, offset - 1) + 1
    }
}

/// Whether `row` begins at `offset`.
pub open spec fn is_row_start(text: Seq<u8>, row: int, offset: int) -> bool {
    &&& 0 <= offset <= text.len()
    &&& row_at(text, offset) == row
    &&& column_at(text, offset) == 0
}

/// Where `row` begins, or the end of the text when it has no such row.
pub open spec fn offset_of_row(text: Seq<u8>, row: int) -> int {
    if exists|offset: int| is_row_start(text, row, offset) {
        choose|offset: int| is_row_start(text, row, offset)
    } else {
        text.len() as int
    }
}

/// The last row of the text.
pub open spec fn max_row(text: Seq<u8>) -> nat {
    row_at(text, text.len() as int)
}

/// Rows never decrease along a text.
pub proof fn lemma_row_at_monotone(text: Seq<u8>, low: int, high: int)
    requires
        0 <= low <= high,
    ensures
        row_at(text, low) <= row_at(text, high),
    decreases high,
{
    if low < high {
        lemma_row_at_monotone(text, low, high - 1);
    }
}

/// There are at most as many rows, and as many columns, as bytes.
pub proof fn lemma_point_bounds(text: Seq<u8>, offset: int)
    requires
        0 <= offset,
    ensures
        row_at(text, offset) + column_at(text, offset) <= offset,
    decreases offset,
{
    if offset > 0 {
        lemma_point_bounds(text, offset - 1);
    }
}

/// A row begins at one place only.
pub proof fn lemma_row_start_unique(text: Seq<u8>, row: int, first: int, second: int)
    requires
        is_row_start(text, row, first),
        is_row_start(text, row, second),
    ensures
        first == second,
{
    if first < second {
        lemma_row_at_monotone(text, first, second - 1);
    } else if second < first {
        lemma_row_at_monotone(text, second, first - 1);
    }
}

/// Where a row begins is where the text says so.
pub proof fn lemma_offset_of_row(text: Seq<u8>, row: int, offset: int)
    requires
        is_row_start(text, row, offset),
    ensures
        offset_of_row(text, row) == offset,
{
    lemma_row_start_unique(text, row, offset_of_row(text, row), offset);
}

/// Every row up to the one that holds `limit` begins somewhere before it.
pub proof fn lemma_row_exists(text: Seq<u8>, row: int, limit: int) -> (offset: int)
    requires
        0 <= limit <= text.len(),
        0 <= row <= row_at(text, limit),
    ensures
        is_row_start(text, row, offset),
        offset <= limit,
    decreases limit,
{
    if row == row_at(text, limit) && column_at(text, limit) == 0 {
        limit
    } else {
        lemma_row_exists(text, row, limit - 1)
    }
}

/// The start of each row that a text has is a place on that row, at its first column.
pub proof fn law_row_start_round_trip(text: Seq<u8>, row: int)
    requires
        0 <= row <= max_row(text),
    ensures
        0 <= offset_of_row(text, row) <= text.len(),
        row_at(text, offset_of_row(text, row)) == row,
        column_at(text, offset_of_row(text, row)) == 0,
{
    let offset = lemma_row_exists(text, row, text.len() as int);
    lemma_offset_of_row(text, row, offset);
}

/// Past the last row, every row begins at the end of the text.
pub proof fn law_row_past_the_end(text: Seq<u8>, row: int)
    requires
        row > max_row(text),
    ensures
        offset_of_row(text, row) == text.len(),
{
    assert forall|offset: int| !is_row_start(text, row, offset) by {
        if is_row_start(text, row, offset) {
            lemma_row_at_monotone(text, offset, text.len() as int);
        }
    }
}

/// A later row begins no earlier.
pub proof fn law_rows_in_order(text: Seq<u8>, low: int, high: int)
    requires
        0 <= low <= high,
    ensures
        0 <= offset_of_row(text, low) <= offset_of_row(text, high) <= text.len(),
{
    if high <= max_row(text) {
        law_row_start_round_trip(text, low);
        law_row_start_round_trip(text, high);
        if offset_of_row(text, high) < offset_of_row(text, low) {
            lemma_row_at_monotone(text, offset_of_row(text, high), offset_of_row(text, low));
        }
    } else {
        law_row_past_the_end(text, high);
        if low <= max_row(text) {
            law_row_start_round_trip(text, low);
        } else {
            law_row_past_the_end(text, low);
        }
    }
}

/// Where `row` begins in `text`, or the end of the text when it has no such row.
pub fn find_row(text: &[u8], row: u32) -> (offset: usize)
    ensures
        offset == offset_of_row(text@, row as int),
        offset <= text@.len(),
{
    if row == 0 {
        proof {
            lemma_offset_of_row(text@, 0, 0);
        }
        return 0;
    }
    let mut seen: u32 = 0;
    let mut offset: usize = 0;
    while offset < text.len()
        invariant
            0 < row,
            seen < row,
            offset <= text@.len(),
            seen == row_at(text@, offset as int),
        decreases text@.len() - offset,
    {
        if text[offset] == NEWLINE {
            seen += 1;
        }
        offset += 1;
        if seen == row {
            proof {
                lemma_offset_of_row(text@, row as int, offset as int);
            }
            return offset;
        }
    }
    proof {
        law_row_past_the_end(text@, row as int);
    }
    offset
}

/// The row and column of `offset`.
pub fn point_at(text: &[u8], offset: usize) -> (point: Point)
    requires
        offset <= text@.len(),
        offset < u32::MAX,
    ensures
        point.row == row_at(text@, offset as int),
        point.column == column_at(text@, offset as int),
        point.row < u32::MAX,
{
    let mut row: u32 = 0;
    let mut column: u32 = 0;
    let mut index: usize = 0;
    while index < offset
        invariant
            index <= offset <= text@.len(),
            offset < u32::MAX,
            row == row_at(text@, index as int),
            column == column_at(text@, index as int),
            row + column <= index,
        decreases offset - index,
    {
        if text[index] == NEWLINE {
            row += 1;
            column = 0;
        } else {
            column += 1;
        }
        index += 1;
    }
    Point { row, column }
}

/// The row of a place is the number of line breaks before it.
pub proof fn law_rows_count_line_breaks(text: Seq<u8>, offset: int)
    requires
        0 <= offset <= text.len(),
    ensures
        row_at(text, offset) == text.take(offset).filter(|byte: u8| byte == 10).len(),
    decreases offset,
{
    reveal(Seq::filter);
    if offset > 0 {
        law_rows_count_line_breaks(text, offset - 1);
        assert(text.take(offset).drop_last() =~= text.take(offset - 1));
        assert(text.take(offset).last() == text[offset - 1]);
    } else {
        assert(text.take(0) =~= Seq::<u8>::empty());
    }
}

/// The column of a place is the number of bytes behind the last line break before it, or behind the
/// start of the text.
pub proof fn law_columns_count_from_the_line_break(text: Seq<u8>, offset: int)
    requires
        0 <= offset <= text.len(),
    ensures
        column_at(text, offset) <= offset,
        forall|at: int|
            offset - column_at(text, offset) <= at < offset ==> #[trigger] text[at] != 10,
        offset > column_at(text, offset) ==> text[offset - column_at(text, offset) - 1] == 10,
    decreases offset,
{
    if offset > 0 && text[offset - 1] != 10 {
        law_columns_count_from_the_line_break(text, offset - 1);
    }
}

} // verus!
