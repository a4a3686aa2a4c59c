//! A buffer of text, its snapshots, and anchors: places that follow the text as it is
//! edited.

use std::ops::Range;

use vstd::prelude::*;
use vstd::utf8::encode_utf8;

use crate::text::clock::{operations_seen, Global};
use crate::text::rows::{find_row, offset_of_row, point_at, Point};
use crate::text::rows::{law_row_past_the_end, law_row_start_round_trip, law_rows_in_order, max_row};
use crate::text::rows::{column_at, row_at};

verus! {

/// On which side of text inserted at its place an anchor stays.
#[derive(Clone, Copy, Debug, PartialEq, Eq, Structural)]
pub enum Bias {
    Left,
    Right,
}

/// A replacement of the bytes from `start` to `end` by `new_len` others.
#[derive(Clone, Copy, Debug, PartialEq, Eq, Structural)]
pub struct Edit {
    pub start: usize,
    pub end: usize,
    pub new_len: usize,
}

/// A place in a buffer: an offset into the text as it was after `version` edits.
#[derive(Clone, Copy, Debug, PartialEq, Eq, Structural)]
pub struct Anchor {
    pub version: usize,
    pub offset: usize,
    pub bias: Bias,
}

/// Where a place at `offset` is after `edit`.
///
/// A place before the replaced bytes does not move, nor does one exactly at their start
/// that stays left. A place after them moves with the text behind it. A place among them is
/// left behind the bytes that took their place.
pub open spec fn moved(edit: Edit, offset: int, bias: Bias) -> int {
    if offset < edit.start || (offset == edit.start && bias == Bias::Left) {
        offset
    } else if offset >= edit.end {
        offset - (edit.end - edit.start) + edit.new_len
    } else {
        edit.start + edit.new_len
    }
}

/// Where a place at `offset` after `version` edits is after all of `edits`.
pub open spec fn moved_through(edits: Seq<Edit>, version: int, offset: int, bias: Bias) -> int
    decreases edits.len() - version,
{
    if version < 0 || version >= edits.len() {
        offset
    } else {
        moved_through(edits, version + 1, moved(edits[version], offset, bias), bias)
    }
}

/// The length that a text of `base` bytes has after the first `count` of `edits`.
pub open spec fn length_after(base: int, edits: Seq<Edit>, count: int) -> int
    decreases count,
{
    if count <= 0 {
        base
    } else {
        length_after(base, edits, count - 1) - (edits[count - 1].end - edits[count - 1].start)
            + edits[count - 1].new_len
    }
}

/// The state of a buffer at one version.
#[derive(Debug)]
pub struct BufferSnapshot {
    text: Vec<u8>,
    version: Global,
    base_len: usize,
    edits: Vec<Edit>,
}

impl BufferSnapshot {
    /// The bytes of the text.
    pub closed spec fn bytes(self) -> Seq<u8> {
        self.text@
    }

    /// The version vector.
    pub closed spec fn clock(self) -> Seq<u32> {
        self.version@
    }

    /// The edits that led from the first text to this one.
    pub closed spec fn history(self) -> Seq<Edit> {
        self.edits@
    }

    /// The length of the first text.
    pub closed spec fn first_len(self) -> int {
        self.base_len as int
    }

    /// The length of the text after `count` edits.
    pub open spec fn len_after(self, count: int) -> int {
        length_after(self.first_len(), self.history(), count)
    }

    /// Each edit replaced bytes that were there, the edits can be counted, and no text was ever so
    /// long that its rows could not be numbered.
    pub open spec fn wf(self) -> bool {
        &&& self.history().len() <= usize::MAX
        &&& self.len_after(self.history().len() as int) == self.bytes().len()
        &&& self.bytes().len() < u32::MAX
        &&& forall|count: int|
            0 <= count <= self.history().len() ==> 0 <= #[trigger] self.len_after(count)
                < u32::MAX
        &&& forall|index: int|
            0 <= index < self.history().len() ==> (#[trigger] self.history()[index]).start
                <= self.history()[index].end <= self.len_after(index)
    }

    /// Where `anchor` is in this text.
    pub open spec fn position(self, anchor: Anchor) -> int {
        moved_through(
            self.history(),
            anchor.version as int,
            anchor.offset as int,
            anchor.bias,
        )
    }

    /// Whether `anchor` was made in this text or in one that it came from.
    pub open spec fn has_anchor(self, anchor: Anchor) -> bool {
        &&& anchor.version <= self.history().len()
        &&& anchor.offset <= self.len_after(anchor.version as int)
    }

    /// Whether this text is `earlier` with some more edits.
    pub open spec fn descends_from(self, earlier: BufferSnapshot) -> bool {
        &&& self.first_len() == earlier.first_len()
        &&& earlier.history().len() <= self.history().len()
        &&& self.history().take(earlier.history().len() as int) == earlier.history()
    }

    /// The anchor at the start of `row` that stays on the side that `bias` says.
    pub open spec fn row_anchor(self, row: int, bias: Bias) -> Anchor {
        Anchor {
            version: self.history().len() as usize,
            offset: offset_of_row(self.bytes(), row) as usize,
            bias,
        }
    }

    /// The bytes of the text.
    pub fn text(&self) -> (text: &[u8])
        ensures
            text@ == self.bytes(),
    {
        self.text.as_slice()
    }

    /// The version of this text.
    pub fn version(&self) -> (version: &Global)
        ensures
            version@ == self.clock(),
    {
        &self.version
    }

    /// An anchor at the start of `row`, or at the end of the text when there is no such row,
    /// that stays before text inserted there.
    pub fn anchor_before(&self, row: u32) -> (anchor: Anchor)
        requires
            self.wf(),
        ensures
            anchor == self.row_anchor(row as int, Bias::Left),
            self.has_anchor(anchor),
            self.position(anchor) == offset_of_row(self.bytes(), row as int),
    {
        let offset: usize = find_row(self.text.as_slice(), row);
        Anchor { version: self.edits.len(), offset, bias: Bias::Left }
    }

    /// An anchor at the start of `row`, or at the end of the text when there is no such row,
    /// that stays behind text inserted there.
    pub fn anchor_after(&self, row: u32) -> (anchor: Anchor)
        requires
            self.wf(),
        ensures
            anchor == self.row_anchor(row as int, Bias::Right),
            self.has_anchor(anchor),
            self.position(anchor) == offset_of_row(self.bytes(), row as int),
    {
        let offset: usize = find_row(self.text.as_slice(), row);
        Anchor { version: self.edits.len(), offset, bias: Bias::Right }
    }

    /// Where `anchor` is in this text.
    pub fn offset_of(&self, anchor: &Anchor) -> (offset: usize)
        requires
            self.wf(),
            self.has_anchor(*anchor),
        ensures
            offset == self.position(*anchor),
            offset <= self.bytes().len(),
    {
        let mut offset: usize = anchor.offset;
        let mut index: usize = anchor.version;
        while index < self.edits.len()
            invariant
                self.wf(),
                index <= self.edits@.len(),
                offset <= self.len_after(index as int),
                moved_through(self.edits@, index as int, offset as int, anchor.bias)
                    == self.position(*anchor),
            decreases self.edits@.len() - index,
        {
            let edit: Edit = self.edits[index];
            proof {
                assert(self.history()[index as int].start <= self.history()[index as int].end);
                assert(self.len_after(index + 1) < u32::MAX);
            }
            let stays: bool = match anchor.bias {
                Bias::Left => offset <= edit.start,
                Bias::Right => offset < edit.start,
            };
            if !stays {
                if offset >= edit.end {
                    offset = offset - (edit.end - edit.start) + edit.new_len;
                } else {
                    offset = edit.start + edit.new_len;
                }
            }
            index += 1;
        }
        offset
    }

    /// The row and column of `anchor` in this text.
    pub fn point_of(&self, anchor: &Anchor) -> (point: Point)
        requires
            self.wf(),
            self.has_anchor(*anchor),
        ensures
            point.row == row_at(self.bytes(), self.position(*anchor)),
            point.column == column_at(self.bytes(), self.position(*anchor)),
            point.row < u32::MAX,
    {
        let offset: usize = self.offset_of(anchor);
        point_at(self.text.as_slice(), offset)
    }
}

/// A text that one replica edits.
#[derive(Debug)]
pub struct Buffer {
    replica_id: u16,
    snapshot: BufferSnapshot,
}

impl Buffer {
    /// The current state.
    pub closed spec fn current(self) -> BufferSnapshot {
        self.snapshot
    }

    /// The replica that edits.
    pub closed spec fn replica(self) -> u16 {
        self.replica_id
    }

    /// Whether the current state is well formed.
    pub open spec fn wf(self) -> bool {
        self.current().wf()
    }

    /// A buffer that holds `text` and has not been edited.
    pub fn new(replica_id: u16, text: &str) -> (buffer: Buffer)
        requires
            encode_utf8(text@).len() < u32::MAX,
        ensures
            buffer.wf(),
            buffer.replica() == replica_id,
            buffer.current().bytes() == encode_utf8(text@),
            buffer.current().history() == Seq::<Edit>::empty(),
            buffer.current().first_len() == encode_utf8(text@).len(),
            buffer.current().clock() == Seq::<u32>::empty(),
    {
        let bytes: &[u8] = text.as_bytes();
        let content: Vec<u8> = copy_bytes(bytes, 0, bytes.len());
        assert(content@ =~= bytes@);
        let base_len: usize = content.len();
        let snapshot = BufferSnapshot {
            text: content,
            version: Global::new(),
            base_len,
            edits: Vec::new(),
        };
        Buffer { replica_id, snapshot }
    }

    /// The current state.
    pub fn snapshot(&self) -> (snapshot: &BufferSnapshot)
        ensures
            *snapshot == self.current(),
    {
        &self.snapshot
    }

    /// Replaces the bytes in `range` by `new_text`.
    pub fn edit(&mut self, range: Range<usize>, new_text: &str)
        requires
            old(self).wf(),
            range.start <= range.end <= old(self).current().bytes().len(),
            old(self).current().bytes().len() + encode_utf8(new_text@).len() < u32::MAX,
            operations_seen(old(self).current().clock(), old(self).replica() as int) < u32::MAX,
        ensures
            final(self).wf(),
            final(self).replica() == old(self).replica(),
            final(self).current().bytes() == old(self).current().bytes().take(range.start as int)
                + encode_utf8(new_text@) + old(self).current().bytes().skip(range.end as int),
            final(self).current().history() == old(self).current().history().push(
                (Edit {
                    start: range.start,
                    end: range.end,
                    new_len: encode_utf8(new_text@).len() as usize,
                }),
            ),
            final(self).current().first_len() == old(self).current().first_len(),
            final(self).current().descends_from(old(self).current()),
            operations_seen(final(self).current().clock(), old(self).replica() as int)
                == operations_seen(old(self).current().clock(), old(self).replica() as int) + 1,
            forall|other: int|
                other != old(self).replica() ==> #[trigger] operations_seen(
                    final(self).current().clock(),
                    other,
                ) == operations_seen(old(self).current().clock(), other),
    {
        let ghost before = self.snapshot;
        let bytes: &[u8] = new_text.as_bytes();
        let mut content: Vec<u8> = copy_bytes(self.snapshot.text.as_slice(), 0, range.start);
        let mut inserted: Vec<u8> = copy_bytes(bytes, 0, bytes.len());
        let mut rest: Vec<u8> = copy_bytes(
            self.snapshot.text.as_slice(),
            range.end,
            self.snapshot.text.len(),
        );
        let new_len: usize = inserted.len();
        content.append(&mut inserted);
        content.append(&mut rest);
        self.snapshot.text = content;
        self.snapshot.edits.push(Edit { start: range.start, end: range.end, new_len });
        self.snapshot.version.observe(self.replica_id);
        let edits: usize = self.snapshot.edits.len();
        proof {
            assert(self.snapshot.history().len() == edits);
            let after = self.snapshot;
            let count = before.history().len() as int;
            assert(after.history().take(count) =~= before.history());
            assert forall|index: int| 0 <= index <= count implies #[trigger] after.len_after(index)
                == before.len_after(index) by {
                lemma_length_after_prefix(before.first_len(), before.history(), after.history(), index);
            }
            assert(after.history()[count] == (Edit { start: range.start, end: range.end, new_len }));
            assert(after.len_after(count + 1) == after.len_after(count) - (range.end - range.start)
                + new_len);
            assert forall|index: int| 0 <= index < after.history().len() implies (
            #[trigger] after.history()[index]).start <= after.history()[index].end
                <= after.len_after(index) by {
                if index < count {
                    assert(before.history()[index] == after.history()[index]);
                }
            }
        }
    }
}

/// A copy of the bytes of `source` from `start` to `end`.
fn copy_bytes(source: &[u8], start: usize, end: usize) -> (copy: Vec<u8>)
    requires
        start <= end <= source@.len(),
    ensures
        copy@ == source@.subrange(start as int, end as int),
{
    let mut copy: Vec<u8> = Vec::new();
    let mut index: usize = start;
    while index < end
        invariant
            start <= index <= end <= source@.len(),
            copy@ == source@.subrange(start as int, index as int),
        decreases end - index,
    {
        copy.push(source[index]);
        index += 1;
        assert(copy@ =~= source@.subrange(start as int, index as int));
    }
    copy
}

/// The first lengths depend on the first edits only.
proof fn lemma_length_after_prefix(base: int, shorter: Seq<Edit>, longer: Seq<Edit>, count: int)
    requires
        shorter.len() <= longer.len(),
        longer.take(shorter.len() as int) == shorter,
        0 <= count <= shorter.len(),
    ensures
        length_after(base, longer, count) == length_after(base, shorter, count),
    decreases count,
{
    if count > 0 {
        lemma_length_after_prefix(base, shorter, longer, count - 1);
        assert(longer.take(shorter.len() as int)[count - 1] == longer[count - 1]);
    }
}

/// An anchor stays an anchor of every text that comes from the one that it was made in.
pub proof fn law_anchor_survives_edits(
    earlier: BufferSnapshot,
    later: BufferSnapshot,
    anchor: Anchor,
)
    requires
        later.descends_from(earlier),
        earlier.has_anchor(anchor),
    ensures
        later.has_anchor(anchor),
{
    lemma_length_after_prefix(
        earlier.first_len(),
        earlier.history(),
        later.history(),
        anchor.version as int,
    );
}

/// Two places that stay on the same side never change their order.
proof fn lemma_moved_through_keeps_order(
    snapshot: BufferSnapshot,
    version: int,
    low: int,
    high: int,
    bias: Bias,
)
    requires
        snapshot.wf(),
        0 <= version <= snapshot.history().len(),
        0 <= low <= high <= snapshot.len_after(version),
    ensures
        0 <= moved_through(snapshot.history(), version, low, bias) <= moved_through(
            snapshot.history(),
            version,
            high,
            bias,
        ) <= snapshot.bytes().len(),
    decreases snapshot.history().len() - version,
{
    if version < snapshot.history().len() {
        let edit = snapshot.history()[version];
        assert(snapshot.len_after(version + 1) == snapshot.len_after(version) - (edit.end
            - edit.start) + edit.new_len);
        lemma_moved_through_keeps_order(
            snapshot,
            version + 1,
            moved(edit, low, bias),
            moved(edit, high, bias),
            bias,
        );
    }
}

/// Anchors of one version that stay on the same side keep their order through every edit.
pub proof fn law_anchors_keep_their_order(
    snapshot: BufferSnapshot,
    low: Anchor,
    high: Anchor,
)
    requires
        snapshot.wf(),
        snapshot.has_anchor(low),
        snapshot.has_anchor(high),
        low.version == high.version,
        low.bias == high.bias,
        low.offset <= high.offset,
    ensures
        0 <= snapshot.position(low) <= snapshot.position(high) <= snapshot.bytes().len(),
{
    lemma_moved_through_keeps_order(
        snapshot,
        low.version as int,
        low.offset as int,
        high.offset as int,
        low.bias,
    );
}

/// In the text in which they were made, the anchors at the ends of a range of rows give that
/// range back: the end of a last row without a newline counts as the start of the next.
pub proof fn law_row_anchors_give_rows_back(snapshot: BufferSnapshot, start: int, end: int)
    requires
        snapshot.wf(),
        0 <= start <= end,
        start <= max_row(snapshot.bytes()),
        end <= max_row(snapshot.bytes()) || (end == max_row(snapshot.bytes()) + 1 && column_at(
            snapshot.bytes(),
            snapshot.bytes().len() as int,
        ) > 0),
    ensures
        ({
            let first = snapshot.position(snapshot.row_anchor(start, Bias::Left));
            let last = snapshot.position(snapshot.row_anchor(end, Bias::Left));
            let column = column_at(snapshot.bytes(), last);
            &&& row_at(snapshot.bytes(), first) == start
            &&& row_at(snapshot.bytes(), last) + (if column > 0 {
                1int
            } else {
                0int
            }) == end
        }),
{
    law_row_start_round_trip(snapshot.bytes(), start);
    law_rows_in_order(snapshot.bytes(), start, end);
    if end <= max_row(snapshot.bytes()) {
        law_row_start_round_trip(snapshot.bytes(), end);
    } else {
        law_row_past_the_end(snapshot.bytes(), end);
    }
}

/// A place keeps the text beside it. One before the bytes that an edit replaced, or at their start
/// and staying left, has the same text before it; any other has behind it what it had, or, from among
/// the replaced bytes, what stood behind those. In particular a place at which text is inserted stays
/// before or behind that text, as its side says.
pub proof fn law_places_keep_their_text(
    old_text: Seq<u8>,
    new_text: Seq<u8>,
    inserted: Seq<u8>,
    edit: Edit,
    offset: int,
    bias: Bias,
)
    requires
        edit.start <= edit.end <= old_text.len(),
        inserted.len() == edit.new_len,
        new_text == old_text.take(edit.start as int) + inserted + old_text.skip(edit.end as int),
        0 <= offset <= old_text.len(),
    ensures
        0 <= moved(edit, offset, bias) <= new_text.len(),
        offset < edit.start || (offset == edit.start && bias == Bias::Left) ==> new_text.take(
            moved(edit, offset, bias),
        ) == old_text.take(offset),
        edit.end <= offset && !(offset == edit.start && bias == Bias::Left) ==> new_text.skip(
            moved(edit, offset, bias),
        ) == old_text.skip(offset),
        edit.start <= offset < edit.end && !(offset == edit.start && bias == Bias::Left)
            ==> new_text.skip(moved(edit, offset, bias)) == old_text.skip(edit.end as int),
{
    let place = moved(edit, offset, bias);
    if offset < edit.start || (offset == edit.start && bias == Bias::Left) {
        assert(new_text.take(place) =~= old_text.take(offset));
    } else if edit.end <= offset {
        assert(new_text.skip(place) =~= old_text.skip(offset));
    } else {
        assert(new_text.skip(place) =~= old_text.skip(edit.end as int));
    }
}

/// A place does not move without edits, and one more edit moves it from where the edits before took
/// it.
pub proof fn law_places_move_edit_by_edit(
    edits: Seq<Edit>,
    edit: Edit,
    version: int,
    offset: int,
    bias: Bias,
)
    requires
        0 <= version <= edits.len(),
    ensures
        moved_through(edits, edits.len() as int, offset, bias) == offset,
        moved_through(edits.push(edit), version, offset, bias) == moved(
            edit,
            moved_through(edits, version, offset, bias),
            bias,
        ),
    decreases edits.len() - version,
{
    let longer = edits.push(edit);
    if version < edits.len() {
        assert(longer[version] == edits[version]);
        law_places_move_edit_by_edit(
            edits,
            edit,
            version + 1,
            moved(edits[version], offset, bias),
            bias,
        );
    } else {
        assert(longer[version] == edit);
        assert(moved_through(longer, version + 1, moved(edit, offset, bias), bias) == moved(
            edit,
            offset,
            bias,
        ));
    }
}

/// An edit makes a text longer by what it inserts and shorter by what it replaces.
pub proof fn law_lengths_follow_the_edits(base: int, edits: Seq<Edit>, edit: Edit)
    ensures
        length_after(base, edits, 0) == base,
        length_after(base, edits.push(edit), edits.len() as int + 1) == length_after(
            base,
            edits,
            edits.len() as int,
        ) + edit.new_len - (edit.end - edit.start),
{
    let longer = edits.push(edit);
    assert(longer.take(edits.len() as int) =~= edits);
    lemma_length_after_prefix(base, edits, longer, edits.len() as int);
    assert(longer[edits.len() as int] == edit);
}

} // verus!
