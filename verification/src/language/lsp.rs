//! Places in texts, as language servers count them.

use std::ops::Range;

use vstd::prelude::*;

verus! {

/// A place in a text: a row, and the number of 16-bit units before it on that row.
#[derive(Clone, Copy, Debug, PartialEq, Eq, Structural)]
pub struct PointUtf16 {
    pub row: u32,
    pub column: u32,
}

/// A place in a text, as a language server is told of it.
#[derive(Clone, Copy, Debug, PartialEq, Eq, Structural)]
pub struct Position {
    pub line: u32,
    pub character: u32,
}

/// A stretch of text, as a language server is told of it.
#[derive(Clone, Copy, Debug, PartialEq, Eq, Structural)]
pub struct LspRange {
    pub start: Position,
    pub end: Position,
}

/// What has a place that language servers can be told of.
pub trait ToLspPosition {
    /// The place, as a language server is told of it.
    fn to_lsp_position(self) -> Position;
}

impl ToLspPosition for PointUtf16 {
    fn to_lsp_position(self) -> (position: Position)
        ensures
            position == lsp_position(self),
    {
        point_to_lsp(self)
    }
}

/// A place, as a language server is told of it.
pub open spec fn lsp_position(point: PointUtf16) -> Position {
    Position { line: point.row, character: point.column }
}

/// A place that a language server tells of.
pub open spec fn lsp_point(position: Position) -> PointUtf16 {
    PointUtf16 { row: position.line, column: position.character }
}

/// Whether one place comes after another.
pub open spec fn comes_after(point: PointUtf16, other: PointUtf16) -> bool {
    point.row > other.row || (point.row == other.row && point.column > other.column)
}

/// A place, as a language server is told of it.
pub fn point_to_lsp(point: PointUtf16) -> (position: Position)
    ensures
        position == lsp_position(point),
{
    Position { line: point.row, character: point.column }
}

/// A place that a language server tells of.
pub fn point_from_lsp(point: Position) -> (found: PointUtf16)
    ensures
        found == lsp_point(point),
{
    PointUtf16 { row: point.line, column: point.character }
}

/// A stretch, as a language server is told of it.
pub fn range_to_lsp(range: Range<PointUtf16>) -> (found: LspRange)
    ensures
        found == (LspRange { start: lsp_position(range.start), end: lsp_position(range.end) }),
{
    LspRange { start: point_to_lsp(range.start), end: point_to_lsp(range.end) }
}

/// The ends of a stretch that a language server tells of, the earlier one first.
pub open spec fn ordered_ends(range: LspRange) -> (PointUtf16, PointUtf16) {
    if comes_after(lsp_point(range.start), lsp_point(range.end)) {
        (lsp_point(range.end), lsp_point(range.start))
    } else {
        (lsp_point(range.start), lsp_point(range.end))
    }
}

/// A stretch that a language server tells of, from its earlier to its later end.
pub fn range_from_lsp(range: LspRange) -> (found: Range<PointUtf16>)
    ensures
        found.start == ordered_ends(range).0,
        found.end == ordered_ends(range).1,
{
    let mut start: PointUtf16 = point_from_lsp(range.start);
    let mut end: PointUtf16 = point_from_lsp(range.end);
    if start.row > end.row || (start.row == end.row && start.column > end.column) {
        let earlier: PointUtf16 = end;
        end = start;
        start = earlier;
    }
    start..end
}

/// A stretch that a language server tells of never ends before it starts.
pub proof fn law_ranges_are_in_order(range: LspRange)
    ensures
        !comes_after(ordered_ends(range).0, ordered_ends(range).1),
{
}

/// A stretch that a language server was told of is the same when it tells of it.
pub proof fn law_range_round_trip(start: PointUtf16, end: PointUtf16)
    requires
        !comes_after(start, end),
    ensures
        ordered_ends(LspRange { start: lsp_position(start), end: lsp_position(end) }) == (
            start,
            end,
        ),
        lsp_point(lsp_position(start)) == start,
{
}

/// Language servers are told rows as lines and columns as characters, and tell them so.
pub proof fn law_rows_are_lines(point: PointUtf16, position: Position)
    ensures
        lsp_position(point).line == point.row,
        lsp_position(point).character == point.column,
        lsp_point(position).row == position.line,
        lsp_point(position).column == position.character,
{
}

/// A stretch that a language server tells of keeps both its ends; they change places exactly if the
/// one that is named first lies on a later line, or later on the same line.
pub proof fn law_both_ends_are_kept(range: LspRange)
    ensures
        ({
            let (first, second) = ordered_ends(range);
            let turned = range.start.line > range.end.line || (range.start.line == range.end.line
                && range.start.character > range.end.character);
            &&& turned ==> first.row == range.end.line && first.column == range.end.character
                && second.row == range.start.line && second.column == range.start.character
            &&& !turned ==> first.row == range.start.line && first.column == range.start.character
                && second.row == range.end.line && second.column == range.end.character
        }),
{
}

} // verus!
