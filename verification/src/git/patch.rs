//! The line differences between two texts.

use std::ops::Range;

use vstd::prelude::*;
use vstd::utf8::encode_utf8;

use git2::DiffLineType;

use crate::sequences::{lemma_filter_first, lemma_filter_last, total};
use crate::text::rows::{column_at, max_row, offset_of_row, NEWLINE};

verus! {

/// What a line of a patch says.
#[derive(Debug, Clone, Copy, PartialEq, Eq, Structural)]
pub enum LineKind {
    /// The line is in the new text only.
    Addition,
    /// The line is in the old text only.
    Deletion,
    /// The line is in both texts, or tells of a missing newline at their end.
    Other,
}

/// A line of a patch.
#[derive(Debug, Clone, Copy, PartialEq, Eq)]
pub struct PatchLine {
    pub kind: LineKind,
    /// The number of the line in the old text, counted from one.
    pub old_lineno: Option<u32>,
    /// The number of the line in the new text, counted from one.
    pub new_lineno: Option<u32>,
    /// Where the line begins in the text that it is in.
    pub content_offset: i64,
    /// The number of bytes in the line.
    pub content_len: usize,
}

/// The lines of each hunk.
pub open spec fn lines_of(hunks: Seq<Vec<PatchLine>>) -> Seq<Seq<PatchLine>> {
    Seq::new(hunks.len(), |index: int| hunks[index]@)
}

/// The row, counted from zero, of a line that `number` counts from one.
pub open spec fn row_of_line(number: Option<u32>) -> int {
    match number {
        Some(number) => if number == 0 {
            0
        } else {
            number - 1
        },
        None => 0,
    }
}

/// The lines of a hunk that were added.
pub open spec fn additions(lines: Seq<PatchLine>) -> Seq<PatchLine> {
    lines.filter(|line: PatchLine| line.kind == LineKind::Addition)
}

/// The lines of a hunk that were deleted.
pub open spec fn deletions(lines: Seq<PatchLine>) -> Seq<PatchLine> {
    lines.filter(|line: PatchLine| line.kind == LineKind::Deletion)
}

/// By how many rows the new text is ahead of the old one after the first `count` hunks.
pub open spec fn divergence_before(hunks: Seq<Seq<PatchLine>>, count: int) -> int
    decreases count,
{
    if count <= 0 {
        0
    } else {
        divergence_before(hunks, count - 1) + additions(hunks[count - 1]).len() - deletions(
            hunks[count - 1],
        ).len()
    }
}

/// The first row of a hunk in the new text: that of its first added line, or, where none was
/// added, that of its first deleted line in the old text, moved by the rows by which the new
/// text is ahead.
pub open spec fn first_row(lines: Seq<PatchLine>, divergence: int) -> u32 {
    if additions(lines).len() > 0 {
        row_of_line(additions(lines).first().new_lineno) as u32
    } else {
        ((row_of_line(deletions(lines).first().old_lineno) + divergence) as i64) as u32
    }
}

/// Whether a text is empty or ends in a line break.
pub open spec fn has_whole_lines(text: Seq<u8>) -> bool {
    text.len() == 0 || text.last() == NEWLINE
}

/// The row after a hunk in the new text: that after its last added line, or its first row
/// where none was added.
pub open spec fn end_row(lines: Seq<PatchLine>, divergence: int) -> u32 {
    if additions(lines).len() > 0 {
        (row_of_line(additions(lines).last().new_lineno) + 1) as u32
    } else {
        first_row(lines, divergence)
    }
}

/// The bytes of the old text that a hunk replaced: from the start of its first deleted line
/// to the end of its last, or none.
pub open spec fn head_bytes(lines: Seq<PatchLine>) -> Range<usize> {
    if deletions(lines).len() > 0 {
        Range {
            start: deletions(lines).first().content_offset as usize,
            end: (deletions(lines).last().content_offset + deletions(lines).last().content_len) as usize,
        }
    } else {
        Range { start: 0, end: 0 }
    }
}

/// A text without some stretches of it, which come in order. An empty stretch takes nothing away.
pub open spec fn without(text: Seq<u8>, stretches: Seq<(int, int)>) -> Seq<u8>
    decreases stretches.len(),
{
    if stretches.len() == 0 {
        text
    } else {
        let (start, end) = stretches.last();
        let rest = stretches.drop_last();
        if start < end {
            without(text.take(start), rest) + text.skip(end)
        } else {
            without(text, rest)
        }
    }
}

/// The bytes of the new text on the rows of each hunk.
pub open spec fn row_stretches(hunks: Seq<Seq<PatchLine>>, new_text: Seq<u8>) -> Seq<(int, int)> {
    Seq::new(
        hunks.len(),
        |index: int|
            (
                offset_of_row(
                    new_text,
                    first_row(hunks[index], divergence_before(hunks, index)) as int,
                ),
                offset_of_row(
                    new_text,
                    end_row(hunks[index], divergence_before(hunks, index)) as int,
                ),
            ),
    )
}

/// The bytes of the old text that each hunk replaced.
pub open spec fn head_stretches(hunks: Seq<Seq<PatchLine>>) -> Seq<(int, int)> {
    Seq::new(
        hunks.len(),
        |index: int| (head_bytes(hunks[index]).start as int, head_bytes(hunks[index]).end as int),
    )
}

/// Whether a hunk has a place in two texts: it begins and ends at rows of the new text, covers a
/// row if lines were added, and replaced bytes of the old text if lines were deleted. One or the
/// other was.
pub open spec fn is_placed(
    lines: Seq<PatchLine>,
    divergence: int,
    old_text: Seq<u8>,
    new_text: Seq<u8>,
) -> bool {
    let first = first_row(lines, divergence);
    let last = end_row(lines, divergence);
    let head = head_bytes(lines);
    &&& additions(lines).len() + deletions(lines).len() > 0
    &&& first <= last
    &&& first <= max_row(new_text)
    &&& last <= max_row(new_text) || (last == max_row(new_text) + 1 && column_at(
        new_text,
        new_text.len() as int,
    ) > 0)
    &&& additions(lines).len() > 0 ==> first < last
    &&& deletions(lines).len() > 0 ==> head.start < head.end <= old_text.len()
}

/// Whether the hunks of a patch turn one text into another: each has a place in both, they come in
/// order with at least one row between two of them, and outside of them both texts are equal.
/// Equal texts have no hunks. Where both texts are made of whole lines, the hunks add as many lines
/// more than they delete as the new text has more. Texts that are not compared line by line have no
/// hunks, of which nothing is said.
pub open spec fn connects(
    hunks: Seq<Seq<PatchLine>>,
    old_text: Seq<u8>,
    new_text: Seq<u8>,
) -> bool {
    &&& forall|index: int|
        0 <= index < hunks.len() ==> is_placed(
            #[trigger] hunks[index],
            divergence_before(hunks, index),
            old_text,
            new_text,
        )
    &&& forall|one: int, other: int|
        0 <= one < other < hunks.len() ==> {
            &&& end_row(#[trigger] hunks[one], divergence_before(hunks, one)) < first_row(
                #[trigger] hunks[other],
                divergence_before(hunks, other),
            )
            &&& deletions(hunks[one]).len() > 0 && deletions(hunks[other]).len() > 0 ==> head_bytes(
                hunks[one],
            ).end <= head_bytes(hunks[other]).start
        }
    &&& hunks.len() > 0 ==> without(new_text, row_stretches(hunks, new_text)) == without(
        old_text,
        head_stretches(hunks),
    )
    &&& old_text == new_text ==> hunks.len() == 0
    &&& hunks.len() > 0 && has_whole_lines(old_text) && has_whole_lines(new_text)
        ==> divergence_before(hunks, hunks.len() as int) == max_row(new_text) - max_row(old_text)
}

/// A patch of `git2`: an opaque value.
#[verifier::external_type_specification]
#[verifier::external_body]
pub struct ExPatch<'buffers>(git2::Patch<'buffers>);

/// An error of `git2`: an opaque value.
#[verifier::external_type_specification]
#[verifier::external_body]
pub struct ExError(git2::Error);

/// The lines of each hunk that a `git2::Patch` holds.
pub uninterp spec fn patch_lines(patch: git2::Patch) -> Seq<Seq<PatchLine>>;

/// The lines of each hunk of the patch that `git2::Patch::from_buffers` makes, without lines
/// of context, from an old and a new text; nothing where it fails.
pub uninterp spec fn git_diff(old_text: Seq<u8>, new_text: Seq<u8>) -> Option<Seq<Seq<PatchLine>>>;

/// Calls `git2::Patch::from_buffers` without paths and with no lines of context. The patch,
/// or the failure, depends on the two texts alone. Its hunks turn the old text into the new one,
/// line by line. Texts that are not compared so, because they are binary or too long, or have the
/// same hash, have no hunks.
#[verifier::external_body]
fn patch_from_buffers<'buffers>(
    old_text: &'buffers [u8],
    new_text: &'buffers [u8],
) -> (patch: Result<git2::Patch<'buffers>, git2::Error>)
    ensures
        match patch {
            Ok(patch) => git_diff(old_text@, new_text@) == Some(patch_lines(patch)) && connects(
                patch_lines(patch),
                old_text@,
                new_text@,
            ),
            Err(_) => git_diff(old_text@, new_text@) is None,
        },
{
    let mut options = git2::DiffOptions::default();
    options.context_lines(0);
    git2::Patch::from_buffers(old_text, None, new_text, None, Some(&mut options))
}

/// Calls `git2::Patch::num_hunks`, which returns the number of hunks in the patch.
#[verifier::external_body]
fn num_hunks(patch: &git2::Patch<'_>) -> (count: usize)
    ensures
        count == patch_lines(*patch).len(),
{
    patch.num_hunks()
}

/// Calls `git2::Patch::num_lines_in_hunk`, which returns the number of lines in a hunk, and
/// fails only where there is no such hunk.
#[verifier::external_body]
fn num_lines_in_hunk(patch: &git2::Patch<'_>, hunk: usize) -> (count: Result<usize, git2::Error>)
    ensures
        match count {
            Ok(count) => hunk < patch_lines(*patch).len() && count == patch_lines(
                *patch,
            )[hunk as int].len(),
            Err(_) => hunk >= patch_lines(*patch).len(),
        },
{
    patch.num_lines_in_hunk(hunk)
}

/// Calls `git2::Patch::line_in_hunk`, which returns a line of a hunk, and fails only where
/// there is no such line. The line is taken apart into its origin, its numbers, its offset
/// and the length of its content.
#[verifier::external_body]
fn line_in_hunk(patch: &git2::Patch<'_>, hunk: usize, line: usize) -> (found: Result<
    PatchLine,
    git2::Error,
>)
    ensures
        match found {
            Ok(found) => hunk < patch_lines(*patch).len() && line < patch_lines(
                *patch,
            )[hunk as int].len() && found == patch_lines(*patch)[hunk as int][line as int],
            Err(_) => hunk >= patch_lines(*patch).len() || line >= patch_lines(
                *patch,
            )[hunk as int].len(),
        },
{
    let line = patch.line_in_hunk(hunk, line)?;
    let kind = match line.origin_value() {
        DiffLineType::Addition => LineKind::Addition,
        DiffLineType::Deletion => LineKind::Deletion,
        DiffLineType::Context => LineKind::Other,
        DiffLineType::ContextEOFNL => LineKind::Other,
        DiffLineType::AddEOFNL => LineKind::Other,
        DiffLineType::DeleteEOFNL => LineKind::Other,
        DiffLineType::FileHeader => LineKind::Other,
        DiffLineType::HunkHeader => LineKind::Other,
        DiffLineType::Binary => LineKind::Other,
    };
    let (old_lineno, new_lineno) = (line.old_lineno(), line.new_lineno());
    let (content_offset, content_len) = (line.content_offset(), line.content().len());
    Ok(PatchLine { kind, old_lineno, new_lineno, content_offset, content_len })
}

/// The lines of each hunk of `patch`.
fn read_patch(patch: &git2::Patch<'_>) -> (hunks: Vec<Vec<PatchLine>>)
    ensures
        lines_of(hunks@) == patch_lines(*patch),
{
    let count: usize = num_hunks(patch);
    let mut hunks: Vec<Vec<PatchLine>> = Vec::new();
    while hunks.len() < count
        invariant
            count == patch_lines(*patch).len(),
            hunks@.len() <= count,
            forall|index: int|
                0 <= index < hunks@.len() ==> (#[trigger] hunks@[index])@ == patch_lines(
                    *patch,
                )[index],
        decreases count - hunks@.len(),
    {
        let hunk: usize = hunks.len();
        let mut lines: Vec<PatchLine> = Vec::new();
        let line_count: usize = match num_lines_in_hunk(patch, hunk) {
            Ok(line_count) => line_count,
            Err(_) => 0,
        };
        while lines.len() < line_count
            invariant
                hunk < patch_lines(*patch).len(),
                line_count == patch_lines(*patch)[hunk as int].len(),
                lines@.len() <= line_count,
                forall|index: int|
                    0 <= index < lines@.len() ==> #[trigger] lines@[index] == patch_lines(
                        *patch,
                    )[hunk as int][index],
            decreases line_count - lines@.len(),
        {
            match line_in_hunk(patch, hunk, lines.len()) {
                Ok(line) => lines.push(line),
                Err(_) => vstd::pervasive::unreached(),
            }
        }
        assert(lines@ =~= patch_lines(*patch)[hunk as int]);
        hunks.push(lines);
    }
    assert(lines_of(hunks@) =~= patch_lines(*patch));
    hunks
}

/// The lines of each hunk in which `new_text` differs from `old_text`, or nothing where the
/// texts cannot be compared.
pub fn diff_texts(old_text: &str, new_text: &[u8]) -> (hunks: Option<Vec<Vec<PatchLine>>>)
    ensures
        match hunks {
            Some(hunks) => {
                &&& git_diff(encode_utf8(old_text@), new_text@) == Some(lines_of(hunks@))
                &&& connects(lines_of(hunks@), encode_utf8(old_text@), new_text@)
            },
            None => git_diff(encode_utf8(old_text@), new_text@) is None,
        },
{
    match patch_from_buffers(old_text.as_bytes(), new_text) {
        Ok(patch) => Some(read_patch(&patch)),
        Err(_) => None,
    }
}

/// A hunk with added lines covers the rows from the first of them to the last.
pub proof fn law_a_hunk_covers_its_added_lines(
    lines: Seq<PatchLine>,
    divergence: int,
    first: int,
    last: int,
)
    requires
        0 <= first <= last < lines.len(),
        lines[first].kind == LineKind::Addition,
        lines[last].kind == LineKind::Addition,
        forall|at: int|
            0 <= at < lines.len() && #[trigger] lines[at].kind == LineKind::Addition ==> first <= at
                <= last,
        lines[first].new_lineno matches Some(number) && number > 0,
        lines[last].new_lineno matches Some(number) && number > 0,
    ensures
        first_row(lines, divergence) + 1 == lines[first].new_lineno->0,
        end_row(lines, divergence) == lines[last].new_lineno->0,
{
    let added = |line: PatchLine| line.kind == LineKind::Addition;
    lemma_filter_first(lines, added, first);
    lemma_filter_last(lines, added, last);
    assert(additions(lines) =~= lines.filter(added));
}

/// A hunk without added lines covers no row: it begins and ends at the row of its first deleted line,
/// moved by as many rows as the new text is ahead.
pub proof fn law_a_hunk_without_added_lines_is_empty(
    lines: Seq<PatchLine>,
    divergence: int,
    first: int,
)
    requires
        0 <= first < lines.len(),
        forall|at: int|
            0 <= at < lines.len() ==> #[trigger] lines[at].kind != LineKind::Addition,
        lines[first].kind == LineKind::Deletion,
        forall|at: int|
            0 <= at < lines.len() && #[trigger] lines[at].kind == LineKind::Deletion ==> first <= at,
        lines[first].old_lineno matches Some(number) && number > 0 && 0 <= number - 1 + divergence
            <= u32::MAX,
    ensures
        first_row(lines, divergence) == lines[first].old_lineno->0 - 1 + divergence,
        end_row(lines, divergence) == first_row(lines, divergence),
{
    let added = |line: PatchLine| line.kind == LineKind::Addition;
    let deleted = |line: PatchLine| line.kind == LineKind::Deletion;
    lemma_filter_first(lines, deleted, first);
    assert(deletions(lines) =~= lines.filter(deleted));
    assert(additions(lines) =~= lines.filter(added));
    if additions(lines).len() > 0 {
        lines.lemma_filter_pred(added, 0);
        lemma_filter_is_inside(lines, added, 0);
    }
}

/// What is wanted of some elements is one of them.
proof fn lemma_filter_is_inside(
    lines: Seq<PatchLine>,
    wanted: spec_fn(PatchLine) -> bool,
    at: int,
)
    requires
        0 <= at < lines.filter(wanted).len(),
    ensures
        lines.contains(lines.filter(wanted)[at]),
    decreases lines.len(),
{
    reveal(Seq::filter);
    let rest = lines.drop_last();
    if at < rest.filter(wanted).len() {
        lemma_filter_is_inside(rest, wanted, at);
        let index = choose|index: int|
            0 <= index < rest.len() && rest[index] == rest.filter(wanted)[at];
        assert(lines[index] == lines.filter(wanted)[at]);
    } else {
        assert(lines[lines.len() - 1] == lines.filter(wanted)[at]);
    }
}

/// The bytes that a hunk replaced reach from the start of its first deleted line to the end of its
/// last; without deleted lines it replaced none.
pub proof fn law_a_hunk_replaced_its_deleted_lines(lines: Seq<PatchLine>, first: int, last: int)
    requires
        0 <= first <= last < lines.len(),
        lines[first].kind == LineKind::Deletion,
        lines[last].kind == LineKind::Deletion,
        forall|at: int|
            0 <= at < lines.len() && #[trigger] lines[at].kind == LineKind::Deletion ==> first <= at
                <= last,
        0 <= lines[first].content_offset <= usize::MAX,
        0 <= lines[last].content_offset,
        lines[last].content_offset + lines[last].content_len <= usize::MAX,
    ensures
        head_bytes(lines).start == lines[first].content_offset,
        head_bytes(lines).end == lines[last].content_offset + lines[last].content_len,
{
    let deleted = |line: PatchLine| line.kind == LineKind::Deletion;
    lemma_filter_first(lines, deleted, first);
    lemma_filter_last(lines, deleted, last);
    assert(deletions(lines) =~= lines.filter(deleted));
}

/// Behind some hunks the new text is ahead by as many rows as they added lines, less as many as they
/// deleted.
pub proof fn law_divergence_counts_lines(hunks: Seq<Seq<PatchLine>>, count: int)
    requires
        0 <= count <= hunks.len(),
    ensures
        divergence_before(hunks, count) == total(
            hunks.take(count),
            |lines: Seq<PatchLine>|
                lines.filter(|line: PatchLine| line.kind == LineKind::Addition).len(),
        ) - total(
            hunks.take(count),
            |lines: Seq<PatchLine>|
                lines.filter(|line: PatchLine| line.kind == LineKind::Deletion).len(),
        ),
    decreases count,
{
    if count > 0 {
        law_divergence_counts_lines(hunks, count - 1);
        assert(hunks.take(count).drop_last() =~= hunks.take(count - 1));
        assert(hunks.take(count).last() == hunks[count - 1]);
    }
}

} // verus!
