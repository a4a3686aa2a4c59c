//! Labels for completions and symbols.

use std::ops::Range;

use vstd::prelude::*;
use vstd::utf8::{encode_utf8, encode_utf8_valid_utf8, is_char_boundary};
use vstd::utf8::{is_char_boundary_iff_not_is_continuation_byte, is_char_boundary_start_end_of_seq};
use vstd::utf8::{length_of_first_scalar, pop_first_scalar, valid_utf8, valid_utf8_split};

use crate::language::highlight::HighlightId;
use crate::strings::{find_bytes, first_stands_at, stands_at};

verus! {

/// A text to show, how stretches of it are highlighted, and the stretch that is searched.
#[derive(Debug, PartialEq, Eq)]
pub struct CodeLabel {
    pub text: String,
    pub runs: Vec<(Range<usize>, HighlightId)>,
    pub filter_range: Range<usize>,
}

impl Clone for CodeLabel {
    fn clone(&self) -> (copy: CodeLabel)
        ensures
            copy.text == self.text,
            copy.runs@ == self.runs@,
            copy.filter_range == self.filter_range,
    {
        let mut runs: Vec<(Range<usize>, HighlightId)> = Vec::new();
        while runs.len() < self.runs.len()
            invariant
                runs@.len() <= self.runs@.len(),
                runs@ == self.runs@.take(runs@.len() as int),
            decreases self.runs@.len() - runs@.len(),
        {
            let index: usize = runs.len();
            let start: usize = self.runs[index].0.start;
            let end: usize = self.runs[index].0.end;
            runs.push((Range { start, end }, self.runs[index].1));
            assert(runs@ =~= self.runs@.take(index as int + 1));
        }
        CodeLabel {
            text: self.text.clone(),
            runs,
            filter_range: Range { start: self.filter_range.start, end: self.filter_range.end },
        }
    }
}

/// Whether `range` is what is searched of a plain label: the first place at which the filter
/// text stands, or all of the text where there is no filter text or it does not occur.
pub open spec fn is_filter_range(
    text: Seq<u8>,
    filter_text: Option<Seq<u8>>,
    range: Range<usize>,
) -> bool {
    match filter_text {
        Some(filter) => if exists|offset: int| #[trigger] stands_at(text, filter, offset) {
            &&& first_stands_at(text, filter, range.start as int)
            &&& range.end == range.start + filter.len()
        } else {
            range.start == 0 && range.end == text.len()
        },
        None => range.start == 0 && range.end == text.len(),
    }
}

impl CodeLabel {
    /// A label that shows `text` without highlights.
    pub fn plain(text: String, filter_text: Option<&str>) -> (label: CodeLabel)
        ensures
            label.text == text,
            label.runs@.len() == 0,
            is_filter_range(
                encode_utf8(text@),
                (match filter_text {
                    Some(filter) => Some(encode_utf8(filter@)),
                    None => None,
                }),
                label.filter_range,
            ),
    {
        let bytes: &[u8] = text.as_str().as_bytes();
        let whole: Range<usize> = 0..bytes.len();
        let filter_range: Range<usize> = match filter_text {
            Some(filter_text) => {
                let filter: &[u8] = filter_text.as_bytes();
                match find_bytes(bytes, filter) {
                    Some(offset) => {
                        assert(stands_at(bytes@, filter@, offset as int));
                        offset..offset + filter.len()
                    },
                    None => {
                        assert(!exists|offset: int| #[trigger] stands_at(bytes@, filter@, offset));
                        whole
                    },
                }
            },
            None => whole,
        };
        CodeLabel { text, runs: Vec::new(), filter_range }
    }
}

/// What is searched of a plain label lies inside its text.
pub proof fn law_filter_range_is_inside(
    text: Seq<u8>,
    filter_text: Option<Seq<u8>>,
    range: Range<usize>,
)
    requires
        is_filter_range(text, filter_text, range),
    ensures
        range.start <= range.end <= text.len(),
        filter_text matches Some(filter) ==> (exists|offset: int| #[trigger]
            stands_at(text, filter, offset)) ==> text.subrange(
            range.start as int,
            range.end as int,
        ) == filter,
{
}

/// Where a text begins with another, the other ends between two characters.
proof fn lemma_prefix_ends_at_boundary(text: Seq<u8>, prefix: Seq<u8>)
    requires
        valid_utf8(text),
        valid_utf8(prefix),
        prefix.len() <= text.len(),
        text.take(prefix.len() as int) == prefix,
    ensures
        is_char_boundary(text, prefix.len() as int),
    decreases prefix.len(),
{
    if prefix.len() > 0 {
        assert(text[0] == text.take(prefix.len() as int)[0]);
        let len = length_of_first_scalar(prefix);
        assert(len == length_of_first_scalar(text));
        let rest = pop_first_scalar(text);
        let shorter = pop_first_scalar(prefix);
        assert(rest.take(shorter.len() as int) =~= shorter) by {
            assert forall|index: int| 0 <= index < shorter.len() implies rest[index]
                == shorter[index] by {
                assert(text.take(prefix.len() as int)[index + len] == prefix[index + len]);
            }
        }
        lemma_prefix_ends_at_boundary(rest, shorter);
    }
}

/// A place between two characters of what comes after such a place is one of the whole text.
proof fn lemma_boundary_behind_boundary(text: Seq<u8>, first: int, second: int)
    requires
        valid_utf8(text),
        is_char_boundary(text, first),
        0 <= first <= text.len(),
        valid_utf8(text.skip(first)),
        0 <= second,
        is_char_boundary(text.skip(first), second),
    ensures
        is_char_boundary(text, first + second),
    decreases text.len(),
{
    if first == 0 {
        assert(text.skip(0) =~= text);
    } else {
        let len = length_of_first_scalar(text);
        let rest = pop_first_scalar(text);
        assert(is_char_boundary(rest, first - len));
        assert(first >= len);
        assert(rest.skip(first - len) =~= text.skip(first));
        lemma_boundary_behind_boundary(rest, first - len, second);
        if first + second > text.len() {
            assert(is_char_boundary(text.skip(first), second));
            assert(text.skip(first).len() < second);
        }
    }
}

/// What is searched of a plain label begins and ends between two characters of its text.
pub proof fn law_filter_range_holds_whole_characters(
    text: Seq<char>,
    filter_text: Option<Seq<char>>,
    range: Range<usize>,
)
    requires
        is_filter_range(
            encode_utf8(text),
            (match filter_text {
                Some(filter) => Some(encode_utf8(filter)),
                None => None,
            }),
            range,
        ),
    ensures
        is_char_boundary(encode_utf8(text), range.start as int),
        is_char_boundary(encode_utf8(text), range.end as int),
{
    let bytes = encode_utf8(text);
    encode_utf8_valid_utf8(text);
    is_char_boundary_start_end_of_seq(bytes);
    if let Some(filter_text) = filter_text {
        let filter = encode_utf8(filter_text);
        encode_utf8_valid_utf8(filter_text);
        is_char_boundary_start_end_of_seq(filter);
        if exists|offset: int| #[trigger] stands_at(bytes, filter, offset) {
            let start = range.start as int;
            if filter.len() == 0 {
                assert(bytes.subrange(0, 0) =~= filter);
                assert(stands_at(bytes, filter, 0));
                assert(start == 0);
            } else {
                is_char_boundary_iff_not_is_continuation_byte(filter, 0);
                is_char_boundary_iff_not_is_continuation_byte(bytes, start);
                assert(bytes.subrange(start, start + filter.len())[0] == filter[0]);
                valid_utf8_split(bytes, start);
                let rest = bytes.skip(start);
                assert(rest =~= bytes.subrange(start, bytes.len() as int));
                assert(rest.take(filter.len() as int) =~= bytes.subrange(
                    start,
                    start + filter.len(),
                ));
                lemma_prefix_ends_at_boundary(rest, filter);
                lemma_boundary_behind_boundary(bytes, start, filter.len() as int);
            }
        }
    }
}

/// Where the filter text occurs, what is searched of a plain label holds it and begins no later than
/// any other place that does; where it does not occur, or there is none, all of the text is searched.
pub proof fn law_the_first_match_is_searched(
    text: Seq<u8>,
    filter_text: Option<Seq<u8>>,
    range: Range<usize>,
    offset: int,
)
    requires
        is_filter_range(text, filter_text, range),
        0 <= offset <= text.len(),
    ensures
        filter_text matches Some(filter) ==> (offset + filter.len() <= text.len() && text.subrange(
            offset,
            offset + filter.len(),
        ) =~= filter ==> range.start <= offset && range.end == range.start + filter.len()
            && text.subrange(range.start as int, range.end as int) == filter),
        filter_text is None ==> range.start == 0 && range.end == text.len(),
        filter_text matches Some(filter) ==> ((forall|at: int|
            0 <= at && at + filter.len() <= text.len() ==> #[trigger] text.subrange(
                at,
                at + filter.len(),
            ) != filter) ==> range.start == 0 && range.end == text.len()),
{
    if let Some(filter) = filter_text {
        if offset + filter.len() <= text.len() && text.subrange(offset, offset + filter.len())
            =~= filter {
            assert(stands_at(text, filter, offset));
        }
        if forall|at: int|
            0 <= at && at + filter.len() <= text.len() ==> #[trigger] text.subrange(
                at,
                at + filter.len(),
            ) != filter {
            assert(forall|at: int| !#[trigger] stands_at(text, filter, at));
        }
    }
}

} // verus!
