//! Which elements of a sequence come before others of their kind.

use vstd::prelude::*;

verus! {

/// How many of the first `index` elements are wanted.
pub open spec fn rank<A>(items: Seq<A>, wanted: spec_fn(A) -> bool, index: int) -> nat {
    items.take(index).filter(wanted).len()
}

/// One more element counts if it is wanted.
pub proof fn lemma_rank_step<A>(items: Seq<A>, wanted: spec_fn(A) -> bool, index: int)
    requires
        0 <= index < items.len(),
    ensures
        rank(items, wanted, index + 1) == rank(items, wanted, index) + (if wanted(items[index]) {
            1nat
        } else {
            0nat
        }),
{
    reveal(Seq::filter);
    assert(items.take(index + 1).drop_last() =~= items.take(index));
    assert(items.take(index + 1).last() == items[index]);
}

/// No element counts before the first, and all that are wanted count behind the last.
pub proof fn lemma_rank_ends<A>(items: Seq<A>, wanted: spec_fn(A) -> bool)
    ensures
        rank(items, wanted, 0) == 0,
        rank(items, wanted, items.len() as int) == items.filter(wanted).len(),
{
    reveal(Seq::filter);
    assert(items.take(0) =~= Seq::<A>::empty());
    assert(items.take(items.len() as int) =~= items);
}

/// An element that is wanted has its place among those that are.
pub proof fn lemma_filter_at_rank<A>(items: Seq<A>, wanted: spec_fn(A) -> bool, index: int)
    requires
        0 <= index < items.len(),
        wanted(items[index]),
    ensures
        rank(items, wanted, index) < items.filter(wanted).len(),
        items.filter(wanted)[rank(items, wanted, index) as int] == items[index],
    decreases items.len(),
{
    reveal(Seq::filter);
    let rest = items.drop_last();
    if index < rest.len() {
        assert(rest.take(index) =~= items.take(index));
        lemma_filter_at_rank(rest, wanted, index);
    } else {
        assert(items.take(index) =~= rest);
    }
}

/// The sum of the sizes of some elements.
pub open spec fn total<A>(items: Seq<A>, size: spec_fn(A) -> nat) -> nat {
    items.fold_left(0nat, |sum: nat, item: A| sum + size(item))
}

/// How much each element contributes.
pub open spec fn piece_len<A, B>(piece: spec_fn(A) -> Seq<B>) -> spec_fn(A) -> nat {
    |item: A| piece(item).len()
}

/// Whether each element contributes a piece to what is joined, and the pieces follow each other.
pub open spec fn joins<A, B>(
    piece: spec_fn(A) -> Seq<B>,
    joined: spec_fn(Seq<A>) -> Seq<B>,
) -> bool {
    &&& joined(Seq::empty()) == Seq::<B>::empty()
    &&& forall|some: Seq<A>|
        some.len() > 0 ==> joined(some) == #[trigger] joined(some.drop_last()) + piece(some.last())
}

/// What is joined is as long as all its pieces.
pub proof fn lemma_joined_len<A, B>(
    items: Seq<A>,
    piece: spec_fn(A) -> Seq<B>,
    joined: spec_fn(Seq<A>) -> Seq<B>,
)
    requires
        joins(piece, joined),
    ensures
        joined(items).len() == total(items, piece_len(piece)),
    decreases items.len(),
{
    if items.len() == 0 {
        assert(items =~= Seq::empty());
    } else {
        lemma_joined_len(items.drop_last(), piece, joined);
    }
}

/// Each piece stands behind those before it.
pub proof fn lemma_joined_at<A, B>(
    items: Seq<A>,
    piece: spec_fn(A) -> Seq<B>,
    joined: spec_fn(Seq<A>) -> Seq<B>,
    index: int,
    at: int,
)
    requires
        joins(piece, joined),
        0 <= index < items.len(),
        0 <= at < piece(items[index]).len(),
    ensures
        total(items.take(index), piece_len(piece)) + at < joined(items).len(),
        joined(items)[total(items.take(index), piece_len(piece)) + at] == piece(items[index])[at],
    decreases items.len(),
{
    let rest = items.drop_last();
    if index < rest.len() {
        assert(rest.take(index) =~= items.take(index));
        lemma_joined_at(rest, piece, joined, index, at);
    } else {
        assert(items.take(index) =~= rest);
        lemma_joined_len(rest, piece, joined);
    }
}

/// The first element that is wanted comes first among those that are.
pub proof fn lemma_filter_first<A>(items: Seq<A>, wanted: spec_fn(A) -> bool, index: int)
    requires
        0 <= index < items.len(),
        wanted(items[index]),
        forall|earlier: int| 0 <= earlier < index ==> !wanted(#[trigger] items[earlier]),
    ensures
        items.filter(wanted).len() > 0,
        items.filter(wanted).first() == items[index],
{
    lemma_filter_at_rank(items, wanted, index);
    lemma_rank_still(items, wanted, 0, index);
    lemma_rank_ends(items, wanted);
}

/// The last element that is wanted comes last among those that are.
pub proof fn lemma_filter_last<A>(items: Seq<A>, wanted: spec_fn(A) -> bool, index: int)
    requires
        0 <= index < items.len(),
        wanted(items[index]),
        forall|later: int| index < later < items.len() ==> !wanted(#[trigger] items[later]),
    ensures
        items.filter(wanted).len() > 0,
        items.filter(wanted).last() == items[index],
{
    lemma_filter_at_rank(items, wanted, index);
    lemma_rank_step(items, wanted, index);
    lemma_rank_still(items, wanted, index + 1, items.len() as int);
    lemma_rank_ends(items, wanted);
}

/// What counts does not change where nothing is wanted.
proof fn lemma_rank_still<A>(items: Seq<A>, wanted: spec_fn(A) -> bool, low: int, high: int)
    requires
        0 <= low <= high <= items.len(),
        forall|at: int| low <= at < high ==> !wanted(#[trigger] items[at]),
    ensures
        rank(items, wanted, low) == rank(items, wanted, high),
    decreases high - low,
{
    if low < high {
        lemma_rank_still(items, wanted, low, high - 1);
        lemma_rank_step(items, wanted, high - 1);
    }
}

} // verus!
