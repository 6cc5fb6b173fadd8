//! Measuring a mesh: triangulating polygons, and planning the reduction
//! of a triangle list to a volume.
//!
//! The volume of a closed mesh is the sum of the signed volumes of its
//! triangles. A short list is summed in one run; a long one is cut into
//! chunks that are summed independently, and the partial sums are added.
//! This module decides which, and where the chunks lie.

pub mod triangulation;

use vstd::prelude::*;

verus! {

/// From this many triangles on, a list is reduced in chunks.
pub const PARALLEL_THRESHOLD: usize = 1000;

/// The number of triangles in a chunk; only the last chunk may hold fewer.
pub const CHUNK_SIZE: usize = 1000;

/// How a triangle list is reduced to its volume.
#[derive(Clone, Copy, Debug, PartialEq, Eq, Structural)]
pub enum Reduction {
    /// Nothing to sum: the volume is zero.
    Empty,
    /// One compensated sum over the whole list.
    Sequential,
    /// One compensated sum per chunk, then a plain sum of the partial sums.
    Chunked,
}

/// The way a list of `len` triangles is reduced.
pub open spec fn reduction_of(len: int) -> Reduction {
    if len == 0 {
        Reduction::Empty
    } else if len < PARALLEL_THRESHOLD {
        Reduction::Sequential
    } else {
        Reduction::Chunked
    }
}

/// The number of chunks that a list of `len` triangles is cut into.
pub open spec fn chunk_count(len: int) -> int {
    (len + CHUNK_SIZE - 1) / (CHUNK_SIZE as int)
}

/// The chunk with number `k` of a list of `len` triangles: where it starts,
/// and where it ends (the end is not part of it).
pub open spec fn chunk(len: int, k: int) -> (usize, usize) {
    (
        (k * CHUNK_SIZE) as usize,
        if (k + 1) * CHUNK_SIZE < len {
            ((k + 1) * CHUNK_SIZE) as usize
        } else {
            len as usize
        },
    )
}

/// The chunks of a list of `len` triangles, first to last.
pub open spec fn chunks_of(len: int) -> Seq<(usize, usize)> {
    Seq::new(chunk_count(len) as nat, |k: int| chunk(len, k))
}

/// Decides how a list of `len` triangles is reduced.
pub fn reduction(len: usize) -> (how: Reduction)
    ensures
        how == reduction_of(len as int),
{
    if len == 0 {
        Reduction::Empty
    } else if len < PARALLEL_THRESHOLD {
        Reduction::Sequential
    } else {
        Reduction::Chunked
    }
}

/// Cuts a list of `len` triangles into chunks of `CHUNK_SIZE`.
pub fn chunks(len: usize) -> (bounds: Vec<(usize, usize)>)
    ensures
        bounds@ == chunks_of(len as int),
{
    let mut bounds: Vec<(usize, usize)> = Vec::new();
    let mut start: usize = 0;
    while start < len
        invariant
            start <= len,
            start == bounds@.len() * CHUNK_SIZE || start == len,
            start == len ==> bounds@.len() == chunk_count(len as int),
            start < len ==> bounds@.len() < chunk_count(len as int),
            forall|k: int| 0 <= k < bounds@.len() ==> bounds@[k] == chunk(len as int, k),
        decreases len - start,
    {
        let end: usize = if len - start > CHUNK_SIZE {
            start + CHUNK_SIZE
        } else {
            len
        };
        bounds.push((start, end));
        start = end;
    }
    assert(bounds@ =~= chunks_of(len as int));
    bounds
}

/// The chunks of a list lie end to end, none is empty, none holds more than
/// `CHUNK_SIZE` triangles, and together they cover the list exactly: every
/// triangle is in one chunk and in one only.
pub proof fn lemma_chunks_partition(len: int)
    requires
        0 <= len <= usize::MAX,
    ensures
        len > 0 ==> chunks_of(len).first().0 == 0 && chunks_of(len).last().1 == len,
        len == 0 ==> chunks_of(len).len() == 0,
        forall|k: int|
            0 <= k < chunks_of(len).len() ==> {
                let piece = #[trigger] chunks_of(len)[k];
                0 < piece.1 - piece.0 <= CHUNK_SIZE
            },
        forall|k: int|
            0 < k < chunks_of(len).len() ==> (#[trigger] chunks_of(len)[k]).0 == chunks_of(
                len,
            )[k - 1].1,
        forall|i: int|
            0 <= i < len ==> {
                let piece = chunks_of(len)[#[trigger] (i / (CHUNK_SIZE as int))];
                0 <= i / (CHUNK_SIZE as int) < chunks_of(len).len() && piece.0 <= i < piece.1
            },
{
}

/// A list below the threshold is all in one chunk, so that its one
/// compensated sum and the sum over its chunks are the same sum.
pub proof fn lemma_short_list_is_one_chunk(len: int)
    requires
        0 < len <= CHUNK_SIZE,
    ensures
        chunks_of(len) == seq![(0usize, len as usize)],
{
    assert(chunks_of(len) =~= seq![(0usize, len as usize)]);
}

/// The sum of the values.
pub open spec fn total(values: Seq<int>) -> int
    decreases values.len(),
{
    if values.len() == 0 {
        0
    } else {
        total(values.drop_last()) + values.last()
    }
}

/// The sum of the partial sums of the values over the first `upto` of the
/// given pieces.
pub open spec fn total_by_pieces(values: Seq<int>, pieces: Seq<(usize, usize)>, upto: int) -> int
    decreases upto,
{
    if upto <= 0 {
        0
    } else {
        total_by_pieces(values, pieces, upto - 1) + total(
            values.subrange(pieces[upto - 1].0 as int, pieces[upto - 1].1 as int),
        )
    }
}

proof fn lemma_total_joined(head: Seq<int>, tail: Seq<int>)
    ensures
        total(head + tail) == total(head) + total(tail),
    decreases tail.len(),
{
    if tail.len() == 0 {
        assert(head + tail =~= head);
    } else {
        assert((head + tail).drop_last() =~= head + tail.drop_last());
        lemma_total_joined(head, tail.drop_last());
    }
}

proof fn lemma_pieces_add_up(values: Seq<int>, upto: int)
    requires
        values.len() <= usize::MAX,
        0 <= upto <= chunk_count(values.len() as int),
    ensures
        total_by_pieces(values, chunks_of(values.len() as int), upto) == total(
            values.subrange(
                0,
                if upto * CHUNK_SIZE < values.len() {
                    upto * CHUNK_SIZE
                } else {
                    values.len() as int
                },
            ),
        ),
    decreases upto,
{
    let len = values.len() as int;
    if upto == 0 {
        assert(values.subrange(0, 0) =~= Seq::<int>::empty());
    } else {
        lemma_pieces_add_up(values, upto - 1);
        let piece = chunks_of(len)[upto - 1];
        let end = if upto * CHUNK_SIZE < len {
            upto * CHUNK_SIZE
        } else {
            len
        };
        assert(piece == chunk(len, upto - 1));
        assert(values.subrange(0, end) =~= values.subrange(0, piece.0 as int) + values.subrange(
            piece.0 as int,
            piece.1 as int,
        ));
        lemma_total_joined(
            values.subrange(0, piece.0 as int),
            values.subrange(piece.0 as int, piece.1 as int),
        );
    }
}

/// Summed by chunks or in one run, the values add up to the same: in exact
/// arithmetic the two ways of reducing a list agree.
pub proof fn lemma_chunked_total_is_total(values: Seq<int>)
    requires
        values.len() <= usize::MAX,
    ensures
        total_by_pieces(
            values,
            chunks_of(values.len() as int),
            chunks_of(values.len() as int).len() as int,
        ) == total(values),
{
    lemma_pieces_add_up(values, chunk_count(values.len() as int));
    assert(values.subrange(0, values.len() as int) =~= values);
}

proof fn lemma_total_without(values: Seq<int>, at: int)
    requires
        0 <= at < values.len(),
    ensures
        total(values) == total(values.remove(at)) + values[at],
{
    let head = values.subrange(0, at);
    let tail = values.subrange(at + 1, values.len() as int);
    let one = seq![values[at]];
    assert(values =~= (head + one) + tail);
    assert(values.remove(at) =~= head + tail);
    assert(one.drop_last() =~= Seq::<int>::empty());
    assert(total(one) == total(one.drop_last()) + one.last());
    lemma_total_joined(head, one);
    lemma_total_joined(head + one, tail);
    lemma_total_joined(head, tail);
}

/// The sum does not depend on the order of the values: listed in any order,
/// the triangles of a mesh add up to the same.
pub proof fn lemma_total_ignores_order(left: Seq<int>, right: Seq<int>)
    requires
        left.to_multiset() == right.to_multiset(),
    ensures
        total(left) == total(right),
    decreases left.len(),
{
    left.to_multiset_ensures();
    right.to_multiset_ensures();
    if left.len() > 0 {
        let last = left.last();
        let shorter = left.drop_last();
        assert(shorter =~= left.remove(left.len() - 1));
        assert(left.contains(last));
        assert(left.to_multiset().count(last) > 0);
        assert(right.to_multiset().count(last) > 0);
        assert(right.contains(last));
        let at = choose|at: int| 0 <= at < right.len() && right[at] == last;
        lemma_total_without(right, at);
        lemma_total_ignores_order(shorter, right.remove(at));
    }
}

/// Negating every value negates the sum: turning every triangle of a mesh
/// the other way round flips the sign of what they add up to, and leaves
/// its magnitude.
pub proof fn lemma_total_of_negated(values: Seq<int>)
    ensures
        total(Seq::new(values.len(), |i: int| -values[i])) == -total(values),
    decreases values.len(),
{
    let negated = Seq::new(values.len(), |i: int| -values[i]);
    if values.len() > 0 {
        let shorter = values.drop_last();
        assert(negated.drop_last() =~= Seq::new(shorter.len(), |i: int| -shorter[i]));
        lemma_total_of_negated(shorter);
    }
}

} // verus!
