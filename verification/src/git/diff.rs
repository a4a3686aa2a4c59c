//! The hunks in which a buffer differs from its base text.

use std::ops::Range;

use vstd::prelude::*;
use vstd::utf8::encode_utf8;

use crate::git::patch::{additions, connects, deletions, diff_texts, divergence_before, end_row};
use crate::git::patch::{first_row, git_diff, has_whole_lines, head_bytes, head_stretches, is_placed};
use crate::git::patch::{lines_of, row_of_line, row_stretches, without, LineKind, PatchLine};
use crate::sequences::total;
use crate::text::buffer::{law_anchor_survives_edits, law_anchors_keep_their_order};
use crate::text::buffer::{law_row_anchors_give_rows_back, moved, Anchor, Bias, BufferSnapshot};
use crate::text::buffer::Edit;
use crate::text::clock::{changed_since, law_unchanged_since_itself, operations_seen, Global};
use crate::text::rows::{column_at, offset_of_row, row_at, Point};
use crate::text::rows::{law_row_start_round_trip, law_rows_in_order};
use crate::text::rows::{law_row_past_the_end, lemma_offset_of_row, lemma_point_bounds, max_row};

verus! {

/// What happened to the rows of a hunk.
#[derive(Debug, Clone, Copy, PartialEq, Eq, Structural)]
pub enum DiffHunkStatus {
    Added,
    Modified,
    Removed,
}

/// A stretch of a buffer together with the bytes of the base text that it replaced.
#[derive(Debug, PartialEq, Eq)]
pub struct DiffHunk<T> {
    pub buffer_range: Range<T>,
    pub head_byte_range: Range<usize>,
}

impl<T: Copy> Clone for DiffHunk<T> {
    fn clone(&self) -> (copy: DiffHunk<T>)
        ensures
            copy == *self,
    {
        DiffHunk {
            buffer_range: Range { start: self.buffer_range.start, end: self.buffer_range.end },
            head_byte_range: Range {
                start: self.head_byte_range.start,
                end: self.head_byte_range.end,
            },
        }
    }
}

/// The status of a hunk: added where it replaced nothing, removed where nothing is left of
/// it, and modified otherwise.
pub open spec fn hunk_status(hunk: DiffHunk<u32>) -> DiffHunkStatus {
    if hunk.head_byte_range.start >= hunk.head_byte_range.end {
        DiffHunkStatus::Added
    } else if hunk.buffer_range.start >= hunk.buffer_range.end {
        DiffHunkStatus::Removed
    } else {
        DiffHunkStatus::Modified
    }
}

impl DiffHunk<u32> {
    /// What happened to the rows of this hunk.
    pub fn status(&self) -> (status: DiffHunkStatus)
        ensures
            status == hunk_status(*self),
    {
        if self.head_byte_range.start >= self.head_byte_range.end {
            DiffHunkStatus::Added
        } else if self.buffer_range.start >= self.buffer_range.end {
            DiffHunkStatus::Removed
        } else {
            DiffHunkStatus::Modified
        }
    }
}

/// The stretch of a buffer that some hunks cover.
#[derive(Debug)]
pub struct DiffHunkSummary {
    pub buffer_range: Range<Anchor>,
}

impl Clone for DiffHunkSummary {
    fn clone(&self) -> (copy: DiffHunkSummary)
        ensures
            copy == *self,
    {
        DiffHunkSummary {
            buffer_range: Range { start: self.buffer_range.start, end: self.buffer_range.end },
        }
    }
}

impl Default for DiffHunkSummary {
    /// The empty stretch at the start of a buffer as it first was.
    fn default() -> (summary: DiffHunkSummary)
        ensures
            summary.buffer_range.start == (Anchor { version: 0, offset: 0, bias: Bias::Left }),
            summary.buffer_range.end == summary.buffer_range.start,
    {
        let start: Anchor = Anchor { version: 0, offset: 0, bias: Bias::Left };
        DiffHunkSummary { buffer_range: Range { start, end: start } }
    }
}

/// Whether `left` stands before `right` in `buffer`: at an earlier place, or at the same
/// place and staying left while the other stays right.
pub open spec fn anchor_before(left: Anchor, right: Anchor, buffer: BufferSnapshot) -> bool {
    ||| buffer.position(left) < buffer.position(right)
    ||| {
        &&& buffer.position(left) == buffer.position(right)
        &&& left.bias == Bias::Left
        &&& right.bias == Bias::Right
    }
}

/// Whether `left` stands before `right` in `buffer`.
fn is_before(left: &Anchor, right: &Anchor, buffer: &BufferSnapshot) -> (before: bool)
    requires
        buffer.wf(),
        buffer.has_anchor(*left),
        buffer.has_anchor(*right),
    ensures
        before == anchor_before(*left, *right, *buffer),
{
    let first: usize = buffer.offset_of(left);
    let second: usize = buffer.offset_of(right);
    if first == second {
        left.bias == Bias::Left && right.bias == Bias::Right
    } else {
        first < second
    }
}

/// The stretch from the first start to the last end of two.
pub open spec fn widened(
    one: Range<Anchor>,
    other: Range<Anchor>,
    buffer: BufferSnapshot,
) -> Range<Anchor> {
    Range {
        start: if anchor_before(other.start, one.start, buffer) {
            other.start
        } else {
            one.start
        },
        end: if anchor_before(one.end, other.end, buffer) {
            other.end
        } else {
            one.end
        },
    }
}

impl DiffHunkSummary {
    /// Whether both ends are places in `buffer`.
    pub open spec fn is_in(self, buffer: BufferSnapshot) -> bool {
        &&& buffer.has_anchor(self.buffer_range.start)
        &&& buffer.has_anchor(self.buffer_range.end)
    }

    /// Widens this summary so that it covers `other` too.
    pub fn add_summary(&mut self, other: &DiffHunkSummary, buffer: &BufferSnapshot)
        requires
            buffer.wf(),
            old(self).is_in(*buffer),
            other.is_in(*buffer),
        ensures
            final(self).is_in(*buffer),
            final(self).buffer_range == widened(
                old(self).buffer_range,
                other.buffer_range,
                *buffer,
            ),
    {
        if is_before(&other.buffer_range.start, &self.buffer_range.start, buffer) {
            self.buffer_range.start = other.buffer_range.start;
        }
        if is_before(&self.buffer_range.end, &other.buffer_range.end, buffer) {
            self.buffer_range.end = other.buffer_range.end;
        }
    }
}

impl DiffHunk<Anchor> {
    /// Whether both ends are places in `buffer`.
    pub open spec fn is_in(self, buffer: BufferSnapshot) -> bool {
        &&& buffer.has_anchor(self.buffer_range.start)
        &&& buffer.has_anchor(self.buffer_range.end)
    }

    /// The stretch that this hunk covers.
    pub fn summary(&self) -> (summary: DiffHunkSummary)
        ensures
            summary.buffer_range == self.buffer_range,
    {
        DiffHunkSummary {
            buffer_range: Range { start: self.buffer_range.start, end: self.buffer_range.end },
        }
    }
}

/// Whether a line tells what a hunk is computed from: an added line its number in the new
/// text, a deleted line its number and its bytes in the old one.
pub open spec fn line_wf(line: PatchLine) -> bool {
    &&& line.kind == LineKind::Addition ==> line.new_lineno is Some
    &&& line.kind == LineKind::Deletion ==> {
        &&& line.old_lineno is Some
        &&& 0 <= line.content_offset
        &&& line.content_offset + line.content_len <= isize::MAX
    }
}

/// Whether every line is well formed and at least one was added or deleted.
pub open spec fn hunk_wf(lines: Seq<PatchLine>) -> bool {
    &&& forall|index: int| 0 <= index < lines.len() ==> line_wf(#[trigger] lines[index])
    &&& additions(lines).len() + deletions(lines).len() > 0
}

/// The number of lines in all hunks.
pub open spec fn total_lines(hunks: Seq<Seq<PatchLine>>) -> nat
    decreases hunks.len(),
{
    if hunks.len() == 0 {
        0
    } else {
        total_lines(hunks.drop_last()) + hunks.last().len()
    }
}

/// The most lines that the hunks of a patch may have, so that rows can be counted.
pub const MAX_PATCH_LINES: u64 = 0x3fff_ffff_ffff_ffff;

/// Whether every hunk is well formed and the lines can be counted.
pub open spec fn patch_wf(hunks: Seq<Seq<PatchLine>>) -> bool {
    &&& forall|index: int| 0 <= index < hunks.len() ==> hunk_wf(#[trigger] hunks[index])
    &&& total_lines(hunks) <= MAX_PATCH_LINES
}

/// The hunk of a buffer that the lines of a patch describe.
pub open spec fn hunk_of(
    lines: Seq<PatchLine>,
    divergence: int,
    buffer: BufferSnapshot,
) -> DiffHunk<Anchor> {
    DiffHunk {
        buffer_range: Range {
            start: buffer.row_anchor(first_row(lines, divergence) as int, Bias::Left),
            end: buffer.row_anchor(end_row(lines, divergence) as int, Bias::Left),
        },
        head_byte_range: head_bytes(lines),
    }
}

/// The hunks of a buffer that a patch describes.
pub open spec fn hunks_of(
    hunks: Seq<Seq<PatchLine>>,
    buffer: BufferSnapshot,
) -> Seq<DiffHunk<Anchor>> {
    Seq::new(
        hunks.len(),
        |index: int| hunk_of(hunks[index], divergence_before(hunks, index), buffer),
    )
}

/// A hunk as the rows that it covers in `buffer`: a row that the hunk ends inside counts.
pub open spec fn hunk_in_rows(hunk: DiffHunk<Anchor>, buffer: BufferSnapshot) -> DiffHunk<u32> {
    let start = buffer.position(hunk.buffer_range.start);
    let end = buffer.position(hunk.buffer_range.end);
    DiffHunk {
        buffer_range: Range {
            start: row_at(buffer.bytes(), start) as u32,
            end: (row_at(buffer.bytes(), end) + if column_at(buffer.bytes(), end) > 0 {
                1int
            } else {
                0int
            }) as u32,
        },
        head_byte_range: hunk.head_byte_range,
    }
}

/// Whether a stretch touches the rows from `start` to `end`: it does not end before the first
/// begins, nor begin after the last does.
pub open spec fn touches(
    range: Range<Anchor>,
    start: int,
    end: int,
    buffer: BufferSnapshot,
) -> bool {
    &&& buffer.position(range.end) >= offset_of_row(buffer.bytes(), start)
    &&& buffer.position(range.start) <= offset_of_row(buffer.bytes(), end)
}

/// The hunks that touch the rows from `start` to `end`, in order, in rows.
pub open spec fn hunks_touching(
    hunks: Seq<DiffHunk<Anchor>>,
    start: int,
    end: int,
    buffer: BufferSnapshot,
) -> Seq<DiffHunk<u32>> {
    hunks.filter(|hunk: DiffHunk<Anchor>| touches(hunk.buffer_range, start, end, buffer)).map_values(
        |hunk: DiffHunk<Anchor>| hunk_in_rows(hunk, buffer),
    )
}

/// Why a buffer could not be compared with its base text.
#[derive(Debug, Clone, Copy, PartialEq, Eq, Structural)]
pub enum DiffError {
    /// The patch has a hunk without a changed line, or a line that lacks its number.
    MalformedPatch,
}

/// The hunks in which a buffer differs from its base text, as of some version of the buffer.
pub struct BufferDiff {
    last_buffer_version: Option<Global>,
    hunks: Vec<DiffHunk<Anchor>>,
}

impl Clone for BufferDiff {
    fn clone(&self) -> (copy: BufferDiff)
        ensures
            copy.contents() == self.contents(),
            copy.last_version() == self.last_version(),
    {
        let mut hunks: Vec<DiffHunk<Anchor>> = Vec::new();
        while hunks.len() < self.hunks.len()
            invariant
                hunks@.len() <= self.hunks@.len(),
                hunks@ == self.hunks@.take(hunks@.len() as int),
            decreases self.hunks@.len() - hunks@.len(),
        {
            let index: usize = hunks.len();
            hunks.push(self.hunks[index].clone());
            assert(hunks@ =~= self.hunks@.take(index as int + 1));
        }
        let last_buffer_version: Option<Global> = match &self.last_buffer_version {
            Some(version) => Some(version.duplicate()),
            None => None,
        };
        BufferDiff { last_buffer_version, hunks }
    }
}

impl BufferDiff {
    /// The hunks, in order.
    pub closed spec fn contents(self) -> Seq<DiffHunk<Anchor>> {
        self.hunks@
    }

    /// The version of the buffer as of which the hunks hold, if they were ever computed.
    pub closed spec fn last_version(self) -> Option<Seq<u32>> {
        match self.last_buffer_version {
            Some(version) => Some(version@),
            None => None,
        }
    }

    /// Whether every hunk has its place in `buffer`.
    pub open spec fn is_in(self, buffer: BufferSnapshot) -> bool {
        forall|index: int|
            0 <= index < self.contents().len() ==> (#[trigger] self.contents()[index]).is_in(buffer)
    }

    /// No hunks, as of no version.
    pub fn new() -> (diff: BufferDiff)
        ensures
            diff.contents() == Seq::<DiffHunk<Anchor>>::empty(),
            diff.last_version() is None,
    {
        BufferDiff { last_buffer_version: None, hunks: Vec::new() }
    }

    /// The hunks that touch the rows of `query_row_range`, in order, as the rows that they
    /// cover in `buffer`.
    pub fn hunks_in_range(&self, query_row_range: Range<u32>, buffer: &BufferSnapshot) -> (found:
        Vec<DiffHunk<u32>>)
        requires
            buffer.wf(),
            self.is_in(*buffer),
        ensures
            found@ == hunks_touching(
                self.contents(),
                query_row_range.start as int,
                query_row_range.end as int,
                *buffer,
            ),
    {
        let start: Anchor = buffer.anchor_before(query_row_range.start);
        let end: Anchor = buffer.anchor_after(query_row_range.end);
        let ghost first = query_row_range.start as int;
        let ghost last = query_row_range.end as int;
        let mut found: Vec<DiffHunk<u32>> = Vec::new();
        let mut index: usize = 0;
        proof {
            reveal(Seq::filter);
            assert(hunks_touching(self.hunks@.take(0), first, last, *buffer) =~= Seq::empty());
        }
        while index < self.hunks.len()
            invariant
                buffer.wf(),
                self.is_in(*buffer),
                index <= self.hunks@.len(),
                buffer.has_anchor(start),
                buffer.has_anchor(end),
                start.bias == Bias::Left,
                end.bias == Bias::Right,
                buffer.position(start) == offset_of_row(buffer.bytes(), first),
                buffer.position(end) == offset_of_row(buffer.bytes(), last),
                found@ == hunks_touching(self.hunks@.take(index as int), first, last, *buffer),
            decreases self.hunks@.len() - index,
        {
            let hunk: &DiffHunk<Anchor> = &self.hunks[index];
            proof {
                assert(self.contents()[index as int].is_in(*buffer));
                lemma_next_hunk(self.hunks@, index as int, first, last, *buffer);
            }
            let before_start: bool = is_before(&hunk.buffer_range.end, &start, buffer);
            let after_end: bool = is_before(&end, &hunk.buffer_range.start, buffer);
            if !before_start && !after_end {
                let from: Point = buffer.point_of(&hunk.buffer_range.start);
                let to: Point = buffer.point_of(&hunk.buffer_range.end);
                let to_row: u32 = if to.column > 0 {
                    to.row + 1
                } else {
                    to.row
                };
                found.push(
                    DiffHunk {
                        buffer_range: Range { start: from.row, end: to_row },
                        head_byte_range: Range {
                            start: hunk.head_byte_range.start,
                            end: hunk.head_byte_range.end,
                        },
                    },
                );
            }
            index += 1;
        }
        assert(self.hunks@.take(self.hunks@.len() as int) =~= self.hunks@);
        found
    }

    /// Drops all hunks, as of the version of `buffer`.
    pub fn clear(&mut self, buffer: &BufferSnapshot)
        ensures
            final(self).contents() == Seq::<DiffHunk<Anchor>>::empty(),
            final(self).last_version() == Some(buffer.clock()),
    {
        self.last_buffer_version = Some(buffer.version().duplicate());
        self.hunks = Vec::new();
    }

    /// Whether `buffer` has seen an operation that the hunks do not account for.
    pub fn needs_update(&self, buffer: &BufferSnapshot) -> (needed: bool)
        ensures
            needed == out_of_date(self.last_version(), buffer.clock()),
    {
        match &self.last_buffer_version {
            Some(last) => buffer.version().changed_since(last),
            None => true,
        }
    }

    /// The hunk that the lines of a patch describe, given by how many rows the new text is
    /// ahead of the old one before it; afterwards, by how many it is ahead behind it.
    pub fn process_patch_hunk(
        lines: &[PatchLine],
        buffer: &BufferSnapshot,
        buffer_row_divergence: &mut i64,
    ) -> (hunk: DiffHunk<Anchor>)
        requires
            buffer.wf(),
            hunk_wf(lines@),
            -MAX_PATCH_LINES <= *old(buffer_row_divergence) - lines@.len(),
            *old(buffer_row_divergence) + lines@.len() <= MAX_PATCH_LINES,
        ensures
            hunk == hunk_of(lines@, *old(buffer_row_divergence) as int, *buffer),
            hunk.is_in(*buffer),
            *final(buffer_row_divergence) == *old(buffer_row_divergence) + additions(lines@).len()
                - deletions(lines@).len(),
    {
        let ghost before = *buffer_row_divergence;
        let ghost whole = lines@;
        let mut first_deletion_buffer_row: Option<u32> = None;
        let mut buffer_row_range: Option<(u32, u32)> = None;
        let mut head_byte_range: Option<(usize, usize)> = None;
        let mut index: usize = 0;
        assert(whole.take(0) =~= Seq::<PatchLine>::empty());
        proof {
            reveal(Seq::filter);
        }
        while index < lines.len()
            invariant
                whole == lines@,
                index <= whole.len(),
                forall|at: int| 0 <= at < whole.len() ==> line_wf(#[trigger] whole[at]),
                -MAX_PATCH_LINES <= before - whole.len(),
                before + whole.len() <= MAX_PATCH_LINES,
                additions(whole.take(index as int)).len() + deletions(
                    whole.take(index as int),
                ).len() <= index,
                *buffer_row_divergence == before + additions(whole.take(index as int)).len()
                    - deletions(whole.take(index as int)).len(),
                match buffer_row_range {
                    Some(range) => {
                        &&& additions(whole.take(index as int)).len() > 0
                        &&& range.0 == row_of_line(
                            additions(whole.take(index as int)).first().new_lineno,
                        )
                        &&& range.1 == row_of_line(
                            additions(whole.take(index as int)).last().new_lineno,
                        ) + 1
                    },
                    None => additions(whole.take(index as int)).len() == 0,
                },
                match head_byte_range {
                    Some(range) => {
                        &&& deletions(whole.take(index as int)).len() > 0
                        &&& range.0 == deletions(whole.take(index as int)).first().content_offset
                        &&& range.1 == deletions(whole.take(index as int)).last().content_offset
                            + deletions(whole.take(index as int)).last().content_len
                    },
                    None => deletions(whole.take(index as int)).len() == 0,
                },
                match first_deletion_buffer_row {
                    Some(row) => {
                        &&& deletions(whole.take(index as int)).len() > 0
                        &&& additions(whole.take(index as int)).len() == 0 ==> row == ((row_of_line(
                            deletions(whole.take(index as int)).first().old_lineno,
                        ) + before) as i64) as u32
                    },
                    None => deletions(whole.take(index as int)).len() == 0,
                },
            decreases whole.len() - index,
        {
            let line: PatchLine = lines[index];
            proof {
                lemma_next_line(whole, index as int);
                assert(line_wf(whole[index as int]));
            }
            match line.kind {
                LineKind::Addition => {
                    *buffer_row_divergence = *buffer_row_divergence + 1;
                    let row: u32 = match line.new_lineno {
                        Some(number) => if number == 0 {
                            0
                        } else {
                            number - 1
                        },
                        None => 0,
                    };
                    buffer_row_range = match buffer_row_range {
                        Some(range) => Some((range.0, row + 1)),
                        None => Some((row, row + 1)),
                    };
                },
                LineKind::Deletion => {
                    let start: usize = line.content_offset as usize;
                    let end: usize = start + line.content_len;
                    head_byte_range = match head_byte_range {
                        Some(range) => Some((range.0, end)),
                        None => Some((start, end)),
                    };
                    if first_deletion_buffer_row.is_none() {
                        let old_row: u32 = match line.old_lineno {
                            Some(number) => if number == 0 {
                                0
                            } else {
                                number - 1
                            },
                            None => 0,
                        };
                        let row: i64 = old_row as i64 + *buffer_row_divergence;
                        first_deletion_buffer_row = Some(
                            #[verifier::truncate]
                            (row as u32),
                        );
                    }
                    *buffer_row_divergence = *buffer_row_divergence - 1;
                },
                LineKind::Other => {},
            }
            index += 1;
        }
        assert(whole.take(whole.len() as int) =~= whole);
        let (start_row, end_row): (u32, u32) = match buffer_row_range {
            Some(range) => range,
            None => match first_deletion_buffer_row {
                Some(row) => (row, row),
                None => vstd::pervasive::unreached(),
            },
        };
        let head: (usize, usize) = match head_byte_range {
            Some(range) => range,
            None => (0, 0),
        };
        DiffHunk {
            buffer_range: Range {
                start: buffer.anchor_before(start_row),
                end: buffer.anchor_before(end_row),
            },
            head_byte_range: Range { start: head.0, end: head.1 },
        }
    }

    /// Takes the hunks from a patch that leads to the text of `buffer`, or takes none where
    /// there is no patch.
    pub fn rebuild(&mut self, patch: Option<&Vec<Vec<PatchLine>>>, buffer: &BufferSnapshot)
        requires
            buffer.wf(),
            patch matches Some(hunks) ==> patch_wf(lines_of(hunks@)),
        ensures
            final(self).contents() == (match patch {
                Some(hunks) => hunks_of(lines_of(hunks@), *buffer),
                None => Seq::empty(),
            }),
            final(self).is_in(*buffer),
            final(self).last_version() == Some(buffer.clock()),
    {
        let mut tree: Vec<DiffHunk<Anchor>> = Vec::new();
        if let Some(patch) = patch {
            let ghost whole = lines_of(patch@);
            let mut divergence: i64 = 0;
            let mut index: usize = 0;
            while index < patch.len()
                invariant
                    buffer.wf(),
                    whole == lines_of(patch@),
                    patch_wf(whole),
                    index <= whole.len(),
                    tree@.len() == index,
                    forall|at: int|
                        0 <= at < index ==> #[trigger] tree@[at] == hunk_of(
                            whole[at],
                            divergence_before(whole, at),
                            *buffer,
                        ) && tree@[at].is_in(*buffer),
                    divergence == divergence_before(whole, index as int),
                decreases whole.len() - index,
            {
                proof {
                    assert(hunk_wf(whole[index as int]));
                    lemma_divergence_bound(whole, index as int);
                    lemma_total_lines_prefix(whole, index + 1);
                    assert(whole.take(index + 1).drop_last() =~= whole.take(index as int));
                }
                let hunk: DiffHunk<Anchor> = BufferDiff::process_patch_hunk(
                    patch[index].as_slice(),
                    buffer,
                    &mut divergence,
                );
                tree.push(hunk);
                index += 1;
            }
            assert(tree@ =~= hunks_of(whole, *buffer));
        }
        self.hunks = tree;
        self.last_buffer_version = Some(buffer.version().duplicate());
    }

    /// Takes the hunks in which `buffer` differs from `diff_base`, or takes none where the two
    /// cannot be compared.
    pub fn update(&mut self, diff_base: &str, buffer: &BufferSnapshot)
        requires
            buffer.wf(),
            git_diff(encode_utf8(diff_base@), buffer.bytes()) matches Some(hunks) ==> patch_wf(
                hunks,
            ),
        ensures
            final(self).contents() == (match git_diff(encode_utf8(diff_base@), buffer.bytes()) {
                Some(hunks) => hunks_of(hunks, *buffer),
                None => Seq::empty(),
            }),
            git_diff(encode_utf8(diff_base@), buffer.bytes()) matches Some(hunks) ==> connects(
                hunks,
                encode_utf8(diff_base@),
                buffer.bytes(),
            ),
            final(self).is_in(*buffer),
            final(self).last_version() == Some(buffer.clock()),
    {
        let patch: Option<Vec<Vec<PatchLine>>> = diff_texts(diff_base, buffer.text());
        self.rebuild(patch.as_ref(), buffer);
    }

    /// Takes the hunks in which `buffer` differs from `diff_base`, or takes none where the two
    /// cannot be compared; where the patch between them makes no sense, nothing changes.
    pub fn try_update(&mut self, diff_base: &str, buffer: &BufferSnapshot) -> (outcome: Result<
        (),
        DiffError,
    >)
        requires
            buffer.wf(),
        ensures
            match outcome {
                Ok(()) => {
                    &&& git_diff(encode_utf8(diff_base@), buffer.bytes()) matches Some(hunks)
                        ==> patch_wf(hunks) && connects(
                        hunks,
                        encode_utf8(diff_base@),
                        buffer.bytes(),
                    )
                    &&& final(self).contents() == (match git_diff(
                        encode_utf8(diff_base@),
                        buffer.bytes(),
                    ) {
                        Some(hunks) => hunks_of(hunks, *buffer),
                        None => Seq::empty(),
                    })
                    &&& final(self).is_in(*buffer)
                    &&& final(self).last_version() == Some(buffer.clock())
                },
                Err(DiffError::MalformedPatch) => {
                    &&& git_diff(encode_utf8(diff_base@), buffer.bytes()) matches Some(hunks)
                    &&& !patch_wf(hunks)
                    &&& *final(self) == *old(self)
                },
            },
    {
        match diff_texts(diff_base, buffer.text()) {
            Some(patch) => if is_patch_wf(&patch) {
                self.update(diff_base, buffer);
                Ok(())
            } else {
                Err(DiffError::MalformedPatch)
            },
            None => {
                self.update(diff_base, buffer);
                Ok(())
            },
        }
    }

    /// All hunks, in order, as the rows that they cover in `buffer`.
    pub fn hunks(&self, buffer: &BufferSnapshot) -> (found: Vec<DiffHunk<u32>>)
        requires
            buffer.wf(),
            self.is_in(*buffer),
        ensures
            found@ == self.contents().map_values(
                |hunk: DiffHunk<Anchor>| hunk_in_rows(hunk, *buffer),
            ),
    {
        let found: Vec<DiffHunk<u32>> = self.hunks_in_range(0..u32::MAX, buffer);
        proof {
            law_all_rows_touch_all_hunks(*self, *buffer);
        }
        found
    }
}

/// Whether hunks as of version `last` do not account for all that version `current` has seen.
pub open spec fn out_of_date(last: Option<Seq<u32>>, current: Seq<u32>) -> bool {
    match last {
        Some(last) => changed_since(current, last),
        None => true,
    }
}

/// How one more line changes what was added and what was deleted.
proof fn lemma_next_line(lines: Seq<PatchLine>, index: int)
    requires
        0 <= index < lines.len(),
    ensures
        additions(lines.take(index + 1)) == (if lines[index].kind == LineKind::Addition {
            additions(lines.take(index)).push(lines[index])
        } else {
            additions(lines.take(index))
        }),
        deletions(lines.take(index + 1)) == (if lines[index].kind == LineKind::Deletion {
            deletions(lines.take(index)).push(lines[index])
        } else {
            deletions(lines.take(index))
        }),
{
    reveal(Seq::filter);
    assert(lines.take(index + 1).drop_last() =~= lines.take(index));
}

/// The first hunks have no more lines than all of them.
proof fn lemma_total_lines_prefix(hunks: Seq<Seq<PatchLine>>, count: int)
    requires
        0 <= count <= hunks.len(),
    ensures
        total_lines(hunks.take(count)) <= total_lines(hunks),
    decreases hunks.len() - count,
{
    if count < hunks.len() {
        lemma_total_lines_prefix(hunks, count + 1);
        assert(hunks.take(count + 1).drop_last() =~= hunks.take(count));
    } else {
        assert(hunks.take(count) =~= hunks);
    }
}

/// A line is added, deleted or neither.
proof fn lemma_changed_lines(lines: Seq<PatchLine>)
    ensures
        additions(lines).len() + deletions(lines).len() <= lines.len(),
    decreases lines.len(),
{
    reveal(Seq::filter);
    if lines.len() > 0 {
        lemma_changed_lines(lines.drop_last());
    }
}

/// The new text is never ahead of the old one, nor behind it, by more than the lines of the
/// hunks so far.
proof fn lemma_divergence_bound(hunks: Seq<Seq<PatchLine>>, count: int)
    requires
        0 <= count <= hunks.len(),
    ensures
        -total_lines(hunks.take(count)) <= divergence_before(hunks, count) <= total_lines(
            hunks.take(count),
        ),
    decreases count,
{
    if count > 0 {
        lemma_divergence_bound(hunks, count - 1);
        lemma_changed_lines(hunks[count - 1]);
        assert(hunks.take(count).drop_last() =~= hunks.take(count - 1));
    }
}

/// Whether a hunk is well formed.
fn is_hunk_wf(lines: &Vec<PatchLine>) -> (well_formed: bool)
    ensures
        well_formed == hunk_wf(lines@),
{
    let mut changed: bool = false;
    let mut index: usize = 0;
    let ghost whole = lines@;
    proof {
        reveal(Seq::filter);
        assert(whole.take(0) =~= Seq::<PatchLine>::empty());
    }
    while index < lines.len()
        invariant
            whole == lines@,
            index <= whole.len(),
            forall|at: int| 0 <= at < index ==> line_wf(#[trigger] whole[at]),
            changed == (additions(whole.take(index as int)).len() + deletions(
                whole.take(index as int),
            ).len() > 0),
        decreases whole.len() - index,
    {
        let line: PatchLine = lines[index];
        proof {
            lemma_next_line(whole, index as int);
        }
        match line.kind {
            LineKind::Addition => {
                if line.new_lineno.is_none() {
                    assert(!line_wf(whole[index as int]));
                    return false;
                }
                changed = true;
            },
            LineKind::Deletion => {
                if line.old_lineno.is_none() || line.content_offset < 0 || line.content_offset as u128
                    + line.content_len as u128 > isize::MAX as u128 {
                    assert(!line_wf(whole[index as int]));
                    return false;
                }
                changed = true;
            },
            LineKind::Other => {},
        }
        index += 1;
    }
    assert(whole.take(whole.len() as int) =~= whole);
    changed
}

/// Whether a patch is well formed.
fn is_patch_wf(patch: &Vec<Vec<PatchLine>>) -> (well_formed: bool)
    ensures
        well_formed == patch_wf(lines_of(patch@)),
{
    let ghost whole = lines_of(patch@);
    let mut total: u64 = 0;
    let mut index: usize = 0;
    while index < patch.len()
        invariant
            whole == lines_of(patch@),
            index <= whole.len(),
            forall|at: int| 0 <= at < index ==> hunk_wf(#[trigger] whole[at]),
            total == total_lines(whole.take(index as int)),
            total <= MAX_PATCH_LINES,
        decreases whole.len() - index,
    {
        proof {
            lemma_total_lines_prefix(whole, index + 1);
            assert(whole.take(index + 1).drop_last() =~= whole.take(index as int));
            assert(whole[index as int] == patch@[index as int]@);
        }
        if !is_hunk_wf(&patch[index]) {
            assert(!hunk_wf(whole[index as int]));
            return false;
        }
        let count: usize = patch[index].len();
        if count as u64 > MAX_PATCH_LINES - total {
            return false;
        }
        total = total + count as u64;
        index += 1;
    }
    assert(whole.take(whole.len() as int) =~= whole);
    true
}

/// In the text that a patch leads to, a hunk covers the rows of its added lines, or no rows
/// where none was added. A hunk without deleted lines was added, one without added lines was
/// removed, and one with both was modified.
pub proof fn law_status_of_a_hunk(
    lines: Seq<PatchLine>,
    divergence: int,
    buffer: BufferSnapshot,
)
    requires
        buffer.wf(),
        hunk_wf(lines),
        head_bytes(lines).start < head_bytes(lines).end || deletions(lines).len() == 0,
        first_row(lines, divergence) < end_row(lines, divergence) || additions(lines).len() == 0,
        first_row(lines, divergence) <= max_row(buffer.bytes()),
        end_row(lines, divergence) <= max_row(buffer.bytes()) || (end_row(lines, divergence)
            == max_row(buffer.bytes()) + 1 && column_at(
            buffer.bytes(),
            buffer.bytes().len() as int,
        ) > 0),
    ensures
        ({
            let hunk = hunk_in_rows(hunk_of(lines, divergence, buffer), buffer);
            &&& hunk.buffer_range.start == first_row(lines, divergence)
            &&& hunk.buffer_range.end == end_row(lines, divergence)
            &&& hunk_status(hunk) == (if deletions(lines).len() == 0 {
                DiffHunkStatus::Added
            } else if additions(lines).len() == 0 {
                DiffHunkStatus::Removed
            } else {
                DiffHunkStatus::Modified
            })
        }),
{
    law_row_anchors_give_rows_back(
        buffer,
        first_row(lines, divergence) as int,
        end_row(lines, divergence) as int,
    );
}

/// Text that is inserted at either end of a hunk that was just computed comes behind that end: the
/// ends themselves stay where they are.
pub proof fn law_ends_of_hunks_stay_left(
    lines: Seq<PatchLine>,
    divergence: int,
    buffer: BufferSnapshot,
    inserted: usize,
)
    ensures
        ({
            let range = hunk_of(lines, divergence, buffer).buffer_range;
            let at_start = Edit {
                start: range.start.offset,
                end: range.start.offset,
                new_len: inserted,
            };
            let at_end = Edit {
                start: range.end.offset,
                end: range.end.offset,
                new_len: inserted,
            };
            &&& moved(at_start, range.start.offset as int, range.start.bias) == range.start.offset
            &&& moved(at_end, range.end.offset as int, range.end.bias) == range.end.offset
            &&& range.start.version == buffer.history().len() as usize
            &&& range.end.version == buffer.history().len() as usize
        }),
{
}

/// Hunks that were just computed, or cleared, are not out of date.
pub proof fn law_fresh_hunks_are_up_to_date(buffer: BufferSnapshot)
    ensures
        !out_of_date(Some(buffer.clock()), buffer.clock()),
{
    law_unchanged_since_itself(buffer.clock());
}

/// Hunks that were never computed are out of date, whatever the buffer has seen.
pub proof fn law_missing_hunks_are_out_of_date(current: Seq<u32>)
    ensures
        out_of_date(None, current),
{
}

/// Once the buffer has seen one more operation of any replica, the hunks are out of date.
pub proof fn law_hunks_go_out_of_date(
    earlier: BufferSnapshot,
    later: BufferSnapshot,
    replica: int,
)
    requires
        operations_seen(earlier.clock(), replica) < operations_seen(later.clock(), replica),
    ensures
        out_of_date(Some(earlier.clock()), later.clock()),
{
}

/// Hunks keep their places in every text that comes from the one for which they were
/// computed.
pub proof fn law_hunks_survive_edits(
    diff: BufferDiff,
    earlier: BufferSnapshot,
    later: BufferSnapshot,
)
    requires
        diff.is_in(earlier),
        later.descends_from(earlier),
    ensures
        diff.is_in(later),
{
    assert forall|index: int| 0 <= index < diff.contents().len() implies (
    #[trigger] diff.contents()[index]).is_in(later) by {
        let hunk = diff.contents()[index];
        assert(hunk.is_in(earlier));
        law_anchor_survives_edits(earlier, later, hunk.buffer_range.start);
        law_anchor_survives_edits(earlier, later, hunk.buffer_range.end);
    }
}

/// Where a summary touches no row of a range, no stretch that it was widened by does either.
pub proof fn law_untouched_summary(
    one: Range<Anchor>,
    other: Range<Anchor>,
    start: int,
    end: int,
    buffer: BufferSnapshot,
)
    requires
        !touches(widened(one, other, buffer), start, end, buffer),
    ensures
        !touches(one, start, end, buffer),
        !touches(other, start, end, buffer),
{
}

/// The lines of a patch are those of all its hunks.
pub proof fn law_all_lines_are_counted(hunks: Seq<Seq<PatchLine>>)
    ensures
        total_lines(hunks) == total(hunks, |lines: Seq<PatchLine>| lines.len()),
    decreases hunks.len(),
{
    if hunks.len() > 0 {
        law_all_lines_are_counted(hunks.drop_last());
    }
}

/// What covers two stretches begins where one of them does and ends where one of them does, no later
/// than either begins and no earlier than either ends.
pub proof fn law_a_summary_covers_both(
    one: Range<Anchor>,
    other: Range<Anchor>,
    buffer: BufferSnapshot,
)
    ensures
        ({
            let both = widened(one, other, buffer);
            &&& both.start == one.start || both.start == other.start
            &&& both.end == one.end || both.end == other.end
            &&& buffer.position(both.start) <= buffer.position(one.start)
            &&& buffer.position(both.start) <= buffer.position(other.start)
            &&& buffer.position(both.end) >= buffer.position(one.end)
            &&& buffer.position(both.end) >= buffer.position(other.end)
            &&& buffer.position(one.start) == buffer.position(other.start) && (one.start.bias
                == Bias::Left || other.start.bias == Bias::Left) ==> both.start.bias == Bias::Left
            &&& buffer.position(one.end) == buffer.position(other.end) && (one.end.bias
                == Bias::Right || other.end.bias == Bias::Right) ==> both.end.bias == Bias::Right
        }),
{
}

/// How one more hunk changes the hunks that touch some rows.
proof fn lemma_next_hunk(
    hunks: Seq<DiffHunk<Anchor>>,
    index: int,
    start: int,
    end: int,
    buffer: BufferSnapshot,
)
    requires
        0 <= index < hunks.len(),
    ensures
        hunks_touching(hunks.take(index + 1), start, end, buffer) == (if touches(
            hunks[index].buffer_range,
            start,
            end,
            buffer,
        ) {
            hunks_touching(hunks.take(index), start, end, buffer).push(
                hunk_in_rows(hunks[index], buffer),
            )
        } else {
            hunks_touching(hunks.take(index), start, end, buffer)
        }),
{
    reveal(Seq::filter);
    assert(hunks.take(index + 1).drop_last() =~= hunks.take(index));
    assert(hunks_touching(hunks.take(index + 1), start, end, buffer) =~= (if touches(
        hunks[index].buffer_range,
        start,
        end,
        buffer,
    ) {
        hunks_touching(hunks.take(index), start, end, buffer).push(
            hunk_in_rows(hunks[index], buffer),
        )
    } else {
        hunks_touching(hunks.take(index), start, end, buffer)
    }));
}

/// Where every hunk touches some rows, none is left out.
proof fn lemma_all_touch(
    hunks: Seq<DiffHunk<Anchor>>,
    start: int,
    end: int,
    buffer: BufferSnapshot,
)
    requires
        forall|index: int|
            0 <= index < hunks.len() ==> touches((#[trigger] hunks[index]).buffer_range, start, end, buffer),
    ensures
        hunks.filter(|hunk: DiffHunk<Anchor>| touches(hunk.buffer_range, start, end, buffer)) == hunks,
    decreases hunks.len(),
{
    reveal(Seq::filter);
    if hunks.len() > 0 {
        lemma_all_touch(hunks.drop_last(), start, end, buffer);
        assert(touches(hunks.last().buffer_range, start, end, buffer));
        assert(hunks.drop_last().push(hunks.last()) =~= hunks);
    }
}

/// Where a row begins in a text that has it, and where a later row begins.
proof fn lemma_rows_strictly_in_order(text: Seq<u8>, low: int, high: int)
    requires
        0 <= low < high,
        low <= max_row(text),
    ensures
        offset_of_row(text, low) <= offset_of_row(text, high),
        high <= max_row(text) || column_at(text, text.len() as int) > 0 || low < max_row(text)
            ==> offset_of_row(text, low) < offset_of_row(text, high),
{
    law_rows_in_order(text, low, high);
    law_row_start_round_trip(text, low);
    if high <= max_row(text) {
        law_row_start_round_trip(text, high);
    } else {
        law_row_past_the_end(text, high);
    }
}

/// Whether a hunk covers rows that touch those from `start` to `end`.
pub open spec fn touches_rows(hunk: DiffHunk<u32>, start: int, end: int) -> bool {
    hunk.buffer_range.end >= start && hunk.buffer_range.start <= end
}

/// A hunk that begins inside a text touches some rows of it exactly if the rows that it covers
/// do.
proof fn lemma_touches_in_rows(
    lines: Seq<PatchLine>,
    divergence: int,
    start: int,
    end: int,
    buffer: BufferSnapshot,
)
    requires
        buffer.wf(),
        first_row(lines, divergence) <= max_row(buffer.bytes()),
        0 <= start <= max_row(buffer.bytes()),
        0 <= end,
    ensures
        touches(hunk_of(lines, divergence, buffer).buffer_range, start, end, buffer)
            == touches_rows(hunk_in_rows(hunk_of(lines, divergence, buffer), buffer), start, end),
{
    let text = buffer.bytes();
    let first = first_row(lines, divergence) as int;
    let last = end_row(lines, divergence) as int;
    let rows = max_row(text) as int;
    lemma_point_bounds(text, text.len() as int);
    law_row_start_round_trip(text, first);
    law_row_start_round_trip(text, start);
    if last <= rows {
        law_row_start_round_trip(text, last);
        if last < start {
            lemma_rows_strictly_in_order(text, last, start);
        } else {
            law_rows_in_order(text, start, last);
        }
    } else {
        law_row_past_the_end(text, last);
    }
    if end < first {
        lemma_rows_strictly_in_order(text, end, first);
    } else {
        law_rows_in_order(text, first, end);
    }
}

/// Leaving out what does not touch before or after hunks are turned into rows is the same.
proof fn lemma_filter_in_rows(
    hunks: Seq<DiffHunk<Anchor>>,
    start: int,
    end: int,
    buffer: BufferSnapshot,
)
    requires
        forall|index: int|
            0 <= index < hunks.len() ==> touches(
                (#[trigger] hunks[index]).buffer_range,
                start,
                end,
                buffer,
            ) == touches_rows(hunk_in_rows(hunks[index], buffer), start, end),
    ensures
        hunks_touching(hunks, start, end, buffer) == hunks.map_values(
            |hunk: DiffHunk<Anchor>| hunk_in_rows(hunk, buffer),
        ).filter(|hunk: DiffHunk<u32>| touches_rows(hunk, start, end)),
    decreases hunks.len(),
{
    reveal(Seq::filter);
    let in_rows = |hunk: DiffHunk<Anchor>| hunk_in_rows(hunk, buffer);
    let all = hunks.map_values(in_rows);
    if hunks.len() > 0 {
        let rest = hunks.drop_last();
        assert forall|index: int| 0 <= index < rest.len() implies touches(
            (#[trigger] rest[index]).buffer_range,
            start,
            end,
            buffer,
        ) == touches_rows(hunk_in_rows(rest[index], buffer), start, end) by {
            assert(rest[index] == hunks[index]);
        }
        lemma_filter_in_rows(rest, start, end, buffer);
        assert(all.drop_last() =~= rest.map_values(in_rows));
        assert(all.last() == hunk_in_rows(hunks.last(), buffer));
        assert(hunks.last() == hunks[hunks.len() - 1]);
        lemma_next_hunk(hunks, hunks.len() - 1, start, end, buffer);
        assert(hunks.take(hunks.len() as int) =~= hunks);
        assert(hunks.take(hunks.len() - 1) =~= rest);
    } else {
        assert(hunks_touching(hunks, start, end, buffer) =~= all.filter(
            |hunk: DiffHunk<u32>| touches_rows(hunk, start, end),
        ));
    }
}

/// Of hunks that were just computed, those that touch some rows are, in the same order, those of
/// all hunks that end at or behind the first of the rows and begin at or before the last. To
/// meet a hunk at either end is enough.
pub proof fn law_fresh_hunks_touch_by_rows(
    diff: BufferDiff,
    hunks: Seq<Seq<PatchLine>>,
    base_text: Seq<u8>,
    buffer: BufferSnapshot,
    start: int,
    end: int,
)
    requires
        buffer.wf(),
        connects(hunks, base_text, buffer.bytes()),
        diff.contents() == hunks_of(hunks, buffer),
        diff.is_in(buffer),
        0 <= start <= max_row(buffer.bytes()),
        0 <= end,
    ensures
        hunks_touching(diff.contents(), start, end, buffer) == hunks_touching(
            diff.contents(),
            0,
            u32::MAX as int,
            buffer,
        ).filter(|hunk: DiffHunk<u32>| touches_rows(hunk, start, end)),
{
    assert forall|index: int| 0 <= index < diff.contents().len() implies touches(
        (#[trigger] diff.contents()[index]).buffer_range,
        start,
        end,
        buffer,
    ) == touches_rows(hunk_in_rows(diff.contents()[index], buffer), start, end) by {
        assert(is_placed(
            hunks[index],
            divergence_before(hunks, index),
            base_text,
            buffer.bytes(),
        ));
        lemma_touches_in_rows(
            hunks[index],
            divergence_before(hunks, index),
            start,
            end,
            buffer,
        );
    }
    lemma_filter_in_rows(diff.contents(), start, end, buffer);
    law_all_rows_touch_all_hunks(diff, buffer);
}

/// The rows that a hunk covers that was just computed.
proof fn lemma_fresh_rows(
    lines: Seq<PatchLine>,
    divergence: int,
    base_text: Seq<u8>,
    buffer: BufferSnapshot,
)
    requires
        buffer.wf(),
        is_placed(lines, divergence, base_text, buffer.bytes()),
    ensures
        hunk_in_rows(hunk_of(lines, divergence, buffer), buffer) == (DiffHunk {
            buffer_range: Range {
                start: first_row(lines, divergence),
                end: end_row(lines, divergence),
            },
            head_byte_range: head_bytes(lines),
        }),
{
    law_row_anchors_give_rows_back(
        buffer,
        first_row(lines, divergence) as int,
        end_row(lines, divergence) as int,
    );
}

/// The bytes of a text on the rows that each of some hunks covers.
pub open spec fn rows_covered(hunks: Seq<DiffHunk<u32>>, text: Seq<u8>) -> Seq<(int, int)> {
    Seq::new(
        hunks.len(),
        |index: int|
            (
                offset_of_row(text, hunks[index].buffer_range.start as int),
                offset_of_row(text, hunks[index].buffer_range.end as int),
            ),
    )
}

/// The bytes of the base text that each of some hunks replaced.
pub open spec fn bytes_replaced(hunks: Seq<DiffHunk<u32>>) -> Seq<(int, int)> {
    Seq::new(
        hunks.len(),
        |index: int|
            (
                hunks[index].head_byte_range.start as int,
                hunks[index].head_byte_range.end as int,
            ),
    )
}

/// Hunks that were just computed are all there, each with the rows and bytes of the patch.
proof fn lemma_fresh_hunks(
    diff: BufferDiff,
    hunks: Seq<Seq<PatchLine>>,
    base_text: Seq<u8>,
    buffer: BufferSnapshot,
)
    requires
        buffer.wf(),
        connects(hunks, base_text, buffer.bytes()),
        diff.contents() == hunks_of(hunks, buffer),
        diff.is_in(buffer),
    ensures
        ({
            let found = hunks_touching(diff.contents(), 0, u32::MAX as int, buffer);
            &&& found.len() == hunks.len()
            &&& forall|index: int|
                0 <= index < hunks.len() ==> #[trigger] found[index] == (DiffHunk {
                    buffer_range: Range {
                        start: first_row(hunks[index], divergence_before(hunks, index)),
                        end: end_row(hunks[index], divergence_before(hunks, index)),
                    },
                    head_byte_range: head_bytes(hunks[index]),
                })
        }),
{
    law_all_rows_touch_all_hunks(diff, buffer);
    let found = hunks_touching(diff.contents(), 0, u32::MAX as int, buffer);
    assert forall|index: int| 0 <= index < hunks.len() implies #[trigger] found[index] == (DiffHunk {
        buffer_range: Range {
            start: first_row(hunks[index], divergence_before(hunks, index)),
            end: end_row(hunks[index], divergence_before(hunks, index)),
        },
        head_byte_range: head_bytes(hunks[index]),
    }) by {
        assert(is_placed(
            hunks[index],
            divergence_before(hunks, index),
            base_text,
            buffer.bytes(),
        ));
        lemma_fresh_rows(hunks[index], divergence_before(hunks, index), base_text, buffer);
    }
}

/// Outside the hunks that were just computed both texts are the same: without the rows that the
/// hunks cover in the one, and the bytes that they replaced in the other, they are equal. Equal
/// texts have no hunks. Texts that differ have none either where they are not compared line by
/// line, of which nothing is said.
pub proof fn law_texts_are_equal_outside_fresh_hunks(
    diff: BufferDiff,
    hunks: Seq<Seq<PatchLine>>,
    base_text: Seq<u8>,
    buffer: BufferSnapshot,
)
    requires
        buffer.wf(),
        connects(hunks, base_text, buffer.bytes()),
        diff.contents() == hunks_of(hunks, buffer),
        diff.is_in(buffer),
        hunks.len() > 0 || base_text == buffer.bytes(),
    ensures
        ({
            let found = hunks_touching(diff.contents(), 0, u32::MAX as int, buffer);
            &&& without(buffer.bytes(), rows_covered(found, buffer.bytes())) == without(
                base_text,
                bytes_replaced(found),
            )
            &&& found.len() == 0 <==> base_text == buffer.bytes()
        }),
{
    lemma_fresh_hunks(diff, hunks, base_text, buffer);
    let found = hunks_touching(diff.contents(), 0, u32::MAX as int, buffer);
    assert(rows_covered(found, buffer.bytes()) =~= row_stretches(hunks, buffer.bytes()));
    assert(bytes_replaced(found) =~= head_stretches(hunks));
}

/// Hunks that were just computed come in order, with at least one row between two of them. The
/// bytes that they replaced come in order too, and do not overlap. Each hunk covers a row or
/// replaced a byte.
pub proof fn law_fresh_hunks_ascend(
    diff: BufferDiff,
    hunks: Seq<Seq<PatchLine>>,
    base_text: Seq<u8>,
    buffer: BufferSnapshot,
)
    requires
        buffer.wf(),
        connects(hunks, base_text, buffer.bytes()),
        diff.contents() == hunks_of(hunks, buffer),
        diff.is_in(buffer),
    ensures
        ({
            let found = hunks_touching(diff.contents(), 0, u32::MAX as int, buffer);
            &&& forall|first: int, second: int|
                0 <= first < second < found.len() ==> {
                    let one = #[trigger] found[first];
                    let other = #[trigger] found[second];
                    &&& one.buffer_range.end < other.buffer_range.start
                    &&& one.head_byte_range.start < one.head_byte_range.end
                        && other.head_byte_range.start < other.head_byte_range.end
                        ==> one.head_byte_range.end <= other.head_byte_range.start
                }
            &&& forall|index: int|
                0 <= index < found.len() ==> {
                    let hunk = #[trigger] found[index];
                    hunk.buffer_range.start < hunk.buffer_range.end || hunk.head_byte_range.start
                        < hunk.head_byte_range.end
                }
        }),
{
    lemma_fresh_hunks(diff, hunks, base_text, buffer);
    let found = hunks_touching(diff.contents(), 0, u32::MAX as int, buffer);
    assert forall|index: int| 0 <= index < found.len() implies {
        let hunk = #[trigger] found[index];
        hunk.buffer_range.start < hunk.buffer_range.end || hunk.head_byte_range.start
            < hunk.head_byte_range.end
    } by {
        assert(is_placed(
            hunks[index],
            divergence_before(hunks, index),
            base_text,
            buffer.bytes(),
        ));
    }
}

/// After all hunks of a patch between texts of whole lines, the new text is ahead of the old one
/// by as many rows as it has more. A patch without hunks says so only of texts with as many
/// lines, as texts that are not compared line by line have none either.
pub proof fn law_divergence_is_the_difference_of_lines(
    hunks: Seq<Seq<PatchLine>>,
    base_text: Seq<u8>,
    text: Seq<u8>,
)
    requires
        connects(hunks, base_text, text),
        has_whole_lines(base_text),
        has_whole_lines(text),
        hunks.len() > 0 || max_row(base_text) == max_row(text),
    ensures
        divergence_before(hunks, hunks.len() as int) == max_row(text) - max_row(base_text),
{
}

/// Every hunk touches the range of all rows.
pub proof fn law_all_rows_touch_all_hunks(diff: BufferDiff, buffer: BufferSnapshot)
    requires
        buffer.wf(),
        diff.is_in(buffer),
    ensures
        hunks_touching(diff.contents(), 0, u32::MAX as int, buffer) == diff.contents().map_values(
            |hunk: DiffHunk<Anchor>| hunk_in_rows(hunk, buffer),
        ),
{
    let text = buffer.bytes();
    lemma_offset_of_row(text, 0, 0);
    lemma_point_bounds(text, text.len() as int);
    law_row_past_the_end(text, u32::MAX as int);
    assert forall|index: int| 0 <= index < diff.contents().len() implies touches(
        (#[trigger] diff.contents()[index]).buffer_range,
        0,
        u32::MAX as int,
        buffer,
    ) by {
        let hunk = diff.contents()[index];
        assert(hunk.is_in(buffer));
        law_anchors_keep_their_order(buffer, hunk.buffer_range.start, hunk.buffer_range.start);
        law_anchors_keep_their_order(buffer, hunk.buffer_range.end, hunk.buffer_range.end);
    }
    lemma_all_touch(diff.contents(), 0, u32::MAX as int, buffer);
}

} // verus!
