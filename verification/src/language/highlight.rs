//! How stretches of text are highlighted.

use std::ops::Range;

use vstd::prelude::*;

use crate::sequences::{lemma_rank_ends, rank};

verus! {

/// Identifies how a stretch of text is highlighted.
#[derive(Clone, Copy, Debug, PartialEq, Eq, Structural)]
pub struct HighlightId(pub u32);

/// The number of text that is not highlighted.
pub const DEFAULT_HIGHLIGHT: u32 = 0xffff_ffff;

/// The identifier of text that is not highlighted.
pub open spec fn default_id() -> HighlightId {
    HighlightId(DEFAULT_HIGHLIGHT)
}

impl HighlightId {
    /// Whether text with this identifier is not highlighted.
    pub fn is_default(&self) -> (is_default: bool)
        ensures
            is_default == (*self == default_id()),
    {
        self.0 == DEFAULT_HIGHLIGHT
    }
}

/// How what each capture of a query matches is highlighted.
#[derive(Debug)]
pub struct HighlightMap {
    ids: Vec<HighlightId>,
}

/// The identifier at some place, or that of text that is not highlighted where there is none.
pub open spec fn id_at(ids: Seq<HighlightId>, capture_id: int) -> HighlightId {
    if 0 <= capture_id < ids.len() {
        ids[capture_id]
    } else {
        default_id()
    }
}

impl HighlightMap {
    /// The identifier of each capture.
    pub closed spec fn all(self) -> Seq<HighlightId> {
        self.ids@
    }

    /// The map in which nothing is highlighted.
    pub fn none() -> (map: HighlightMap)
        ensures
            map.all() == Seq::<HighlightId>::empty(),
    {
        HighlightMap { ids: Vec::new() }
    }

    /// The map in which each capture is highlighted as `theme` says of its name.
    pub fn new<T: Fn(&String) -> HighlightId>(capture_names: &[String], theme: &T) -> (map:
        HighlightMap)
        requires
            forall|name: &String| theme.requires((name,)),
        ensures
            map.all().len() == capture_names@.len(),
            forall|index: int|
                0 <= index < capture_names@.len() ==> theme.ensures(
                    (&capture_names@[index],),
                    #[trigger] map.all()[index],
                ),
    {
        let mut ids: Vec<HighlightId> = Vec::new();
        let mut index: usize = 0;
        while index < capture_names.len()
            invariant
                forall|name: &String| theme.requires((name,)),
                index <= capture_names@.len(),
                ids@.len() == index,
                forall|at: int|
                    0 <= at < index ==> theme.ensures((&capture_names@[at],), #[trigger] ids@[at]),
            decreases capture_names@.len() - index,
        {
            let id: HighlightId = theme(&capture_names[index]);
            ids.push(id);
            index += 1;
        }
        HighlightMap { ids }
    }

    /// How what a capture matches is highlighted.
    pub fn get(&self, capture_id: u32) -> (id: HighlightId)
        ensures
            id == id_at(self.all(), capture_id as int),
    {
        if (capture_id as u64) < self.ids.len() as u64 {
            self.ids[capture_id as usize]
        } else {
            HighlightId(DEFAULT_HIGHLIGHT)
        }
    }

    /// A copy of this map.
    pub fn duplicate(&self) -> (map: HighlightMap)
        ensures
            map.all() == self.all(),
    {
        let mut ids: Vec<HighlightId> = Vec::new();
        let mut index: usize = 0;
        while index < self.ids.len()
            invariant
                index <= self.ids@.len(),
                ids@ == self.ids@.take(index as int),
            decreases self.ids@.len() - index,
        {
            ids.push(self.ids[index]);
            index += 1;
            assert(ids@ =~= self.ids@.take(index as int));
        }
        assert(self.ids@.take(index as int) =~= self.ids@);
        HighlightMap { ids }
    }
}

/// A stretch of text that is highlighted in one way.
#[derive(Clone, Copy, Debug, PartialEq, Eq, Structural)]
pub struct HighlightChunk {
    /// Its number of bytes.
    pub len: usize,
    pub highlight_id: Option<HighlightId>,
}

/// The number of bytes in some chunks.
pub open spec fn chunks_len(chunks: Seq<HighlightChunk>) -> nat
    decreases chunks.len(),
{
    if chunks.len() == 0 {
        0
    } else {
        chunks_len(chunks.drop_last()) + chunks.last().len as nat
    }
}

/// Where the chunks that are highlighted stand, and how each is highlighted.
pub open spec fn runs_of(chunks: Seq<HighlightChunk>) -> Seq<(Range<usize>, HighlightId)>
    decreases chunks.len(),
{
    if chunks.len() == 0 {
        Seq::empty()
    } else {
        let rest = runs_of(chunks.drop_last());
        match chunks.last().highlight_id {
            Some(id) if id != default_id() => rest.push(
                (
                    Range {
                        start: chunks_len(chunks.drop_last()) as usize,
                        end: chunks_len(chunks) as usize,
                    },
                    id,
                ),
            ),
            _ => rest,
        }
    }
}

/// Where the chunks that are highlighted stand, and how each is highlighted.
pub fn highlight_runs(chunks: &[HighlightChunk]) -> (runs: Vec<(Range<usize>, HighlightId)>)
    requires
        chunks_len(chunks@) <= usize::MAX,
    ensures
        runs@ == runs_of(chunks@),
{
    let mut runs: Vec<(Range<usize>, HighlightId)> = Vec::new();
    let mut offset: usize = 0;
    let mut index: usize = 0;
    assert(chunks@.take(0) =~= Seq::<HighlightChunk>::empty());
    while index < chunks.len()
        invariant
            index <= chunks@.len(),
            chunks_len(chunks@) <= usize::MAX,
            offset == chunks_len(chunks@.take(index as int)),
            runs@ == runs_of(chunks@.take(index as int)),
        decreases chunks@.len() - index,
    {
        let chunk: HighlightChunk = chunks[index];
        proof {
            lemma_chunks_prefix(chunks@, index + 1);
            assert(chunks@.take(index + 1).drop_last() =~= chunks@.take(index as int));
        }
        let end_offset: usize = offset + chunk.len;
        if let Some(highlight_id) = chunk.highlight_id {
            if !highlight_id.is_default() {
                runs.push((Range { start: offset, end: end_offset }, highlight_id));
            }
        }
        offset = end_offset;
        index += 1;
    }
    assert(chunks@.take(index as int) =~= chunks@);
    runs
}

/// The first chunks have no more bytes than all of them.
proof fn lemma_chunks_prefix(chunks: Seq<HighlightChunk>, count: int)
    requires
        0 <= count <= chunks.len(),
    ensures
        chunks_len(chunks.take(count)) <= chunks_len(chunks),
    decreases chunks.len() - count,
{
    if count < chunks.len() {
        lemma_chunks_prefix(chunks, count + 1);
        assert(chunks.take(count + 1).drop_last() =~= chunks.take(count));
    } else {
        assert(chunks.take(count) =~= chunks);
    }
}

/// Highlighted stretches lie inside the text, come in order, do not overlap, and are never
/// marked with the identifier of text that is not highlighted.
pub proof fn law_runs_in_order(chunks: Seq<HighlightChunk>)
    requires
        chunks_len(chunks) <= usize::MAX,
    ensures
        forall|index: int|
            0 <= index < runs_of(chunks).len() ==> {
                let run = #[trigger] runs_of(chunks)[index];
                run.0.start <= run.0.end <= chunks_len(chunks) && run.1 != default_id()
            },
        forall|first: int, second: int|
            0 <= first < second < runs_of(chunks).len() ==> (#[trigger] runs_of(
                chunks,
            )[first]).0.end <= (#[trigger] runs_of(chunks)[second]).0.start,
    decreases chunks.len(),
{
    if chunks.len() > 0 {
        let before = chunks.drop_last();
        law_runs_in_order(before);
        let rest = runs_of(before);
        let all = runs_of(chunks);
        assert forall|index: int| 0 <= index < all.len() implies {
            let run = #[trigger] all[index];
            run.0.start <= run.0.end <= chunks_len(chunks) && run.1 != default_id()
        } by {
            if index < rest.len() {
                assert(all[index] == rest[index]);
            }
        }
        assert forall|first: int, second: int| 0 <= first < second < all.len() implies (
        #[trigger] all[first]).0.end <= (#[trigger] all[second]).0.start by {
            assert(all[first] == rest[first]);
            if second < rest.len() {
                assert(all[second] == rest[second]);
            }
        }
    }
}

/// Whether a chunk is highlighted: it has an identifier, and not the one with the highest number.
pub open spec fn is_highlighted(chunk: HighlightChunk) -> bool {
    chunk.highlight_id matches Some(id) && id.0 != u32::MAX
}

/// The number of bytes in all chunks is the sum of their lengths.
proof fn lemma_chunks_len_is_a_sum(chunks: Seq<HighlightChunk>)
    ensures
        chunks_len(chunks) == chunks.fold_left(
            0nat,
            |sum: nat, chunk: HighlightChunk| sum + chunk.len as nat,
        ),
    decreases chunks.len(),
{
    if chunks.len() > 0 {
        lemma_chunks_len_is_a_sum(chunks.drop_last());
    }
}

/// Every highlighted chunk gets exactly one run, from the number of bytes before it to the number
/// of bytes up to its end, with its identifier; the runs come in the order of the chunks, and there
/// are no others.
pub proof fn law_every_highlighted_chunk_gets_one_run(chunks: Seq<HighlightChunk>)
    requires
        chunks_len(chunks) <= usize::MAX,
    ensures
        runs_of(chunks).len() == chunks.filter(|chunk: HighlightChunk| is_highlighted(chunk)).len(),
        forall|index: int|
            #![trigger chunks[index]]
            0 <= index < chunks.len() && is_highlighted(chunks[index]) ==> {
                let place = rank(chunks, |chunk: HighlightChunk| is_highlighted(chunk), index);
                let before = chunks.take(index).fold_left(
                    0nat,
                    |sum: nat, chunk: HighlightChunk| sum + chunk.len as nat,
                );
                &&& place < runs_of(chunks).len()
                &&& runs_of(chunks)[place as int].0.start == before
                &&& runs_of(chunks)[place as int].0.end == before + chunks[index].len
                &&& Some(runs_of(chunks)[place as int].1) == chunks[index].highlight_id
            },
    decreases chunks.len(),
{
    reveal(Seq::filter);
    let wanted = |chunk: HighlightChunk| is_highlighted(chunk);
    if chunks.len() > 0 {
        let rest = chunks.drop_last();
        assert(chunks.take(rest.len() as int) =~= rest);
        lemma_chunks_prefix(chunks, rest.len() as int);
        law_every_highlighted_chunk_gets_one_run(rest);
        lemma_chunks_len_is_a_sum(rest);
        lemma_rank_ends(rest, wanted);
        assert forall|index: int|
            #![trigger chunks[index]]
            0 <= index < chunks.len() && is_highlighted(chunks[index]) implies {
            let place = rank(chunks, wanted, index);
            let before = chunks.take(index).fold_left(
                0nat,
                |sum: nat, chunk: HighlightChunk| sum + chunk.len as nat,
            );
            &&& place < runs_of(chunks).len()
            &&& runs_of(chunks)[place as int].0.start == before
            &&& runs_of(chunks)[place as int].0.end == before + chunks[index].len
            &&& Some(runs_of(chunks)[place as int].1) == chunks[index].highlight_id
        } by {
            if index < rest.len() {
                assert(rest.take(index) =~= chunks.take(index));
                assert(rest[index] == chunks[index]);
            }
        }
    }
}

/// A capture is highlighted as the map says of its place, and not at all where the map has none.
pub proof fn law_places_outside_a_map_are_not_highlighted(ids: Seq<HighlightId>, capture_id: int)
    ensures
        0 <= capture_id < ids.len() ==> id_at(ids, capture_id) == ids[capture_id],
        !(0 <= capture_id < ids.len()) ==> id_at(ids, capture_id).0 == u32::MAX,
{
}

} // verus!
