//! The signed area of a polygon and of the triangles it is cut into, in
//! exact arithmetic.
//!
//! Each position of the polygon is given a point in the plane. The doubled
//! signed area of a closed path is the sum, over its edges, of what each
//! edge sweeps with the origin: the shoelace formula.

use crate::calculate::triangulation::laws::{lemma_start_wf, lemma_step_wf};
use crate::calculate::triangulation::state::{polygon_fault, ClipState};
use crate::calculate::triangulation::Phase;
use vstd::prelude::*;

verus! {

/// Twice the signed area of the triangle of the origin, `from` and `to`.
pub open spec fn sweep(from: (int, int), to: (int, int)) -> int {
    from.0 * to.1 - to.0 * from.1
}

/// The sum of what the edges of the path through the given positions sweep,
/// one position after the other.
pub open spec fn path_sweep(points: Seq<(int, int)>, along: Seq<usize>) -> int
    decreases along.len(),
{
    if along.len() < 2 {
        0
    } else {
        path_sweep(points, along.drop_last()) + sweep(
            points[along[along.len() - 2] as int],
            points[along.last() as int],
        )
    }
}

/// Twice the signed area of the closed polygon through the given positions.
pub open spec fn doubled_area(points: Seq<(int, int)>, along: Seq<usize>) -> int {
    if along.len() == 0 {
        0
    } else {
        path_sweep(points, along) + sweep(points[along.last() as int], points[along[0] as int])
    }
}

/// Twice the signed areas of the cuts, added up.
pub open spec fn cuts_doubled_area(points: Seq<(int, int)>, cuts: Seq<[usize; 3]>) -> int
    decreases cuts.len(),
{
    if cuts.len() == 0 {
        0
    } else {
        cuts_doubled_area(points, cuts.drop_last()) + doubled_area(points, cuts.last()@)
    }
}

/// The positions of a polygon of `corners` corners, in order.
pub open spec fn all_positions(corners: nat) -> Seq<usize> {
    Seq::new(corners, |i: int| i as usize)
}

/// The area that a run accounts for: what it has cut off, and what is left
/// inside the ring of its active corners.
pub open spec fn accounted_area(points: Seq<(int, int)>, state: ClipState) -> int {
    cuts_doubled_area(points, state.clipped) + if state.phase == Phase::Complete {
        0
    } else {
        doubled_area(points, state.active)
    }
}

proof fn lemma_path_of_three(points: Seq<(int, int)>, cut: Seq<usize>)
    requires
        cut.len() == 3,
    ensures
        doubled_area(points, cut) == sweep(points[cut[0] as int], points[cut[1] as int]) + sweep(
            points[cut[1] as int],
            points[cut[2] as int],
        ) + sweep(points[cut[2] as int], points[cut[0] as int]),
{
    let two = cut.drop_last();
    let one = two.drop_last();
    assert(path_sweep(points, one) == 0);
    assert(path_sweep(points, two) == path_sweep(points, one) + sweep(
        points[two[0] as int],
        points[two[1] as int],
    ));
}

proof fn lemma_path_joined(points: Seq<(int, int)>, head: Seq<usize>, tail: Seq<usize>)
    requires
        head.len() >= 1,
        tail.len() >= 1,
    ensures
        path_sweep(points, head + tail) == path_sweep(points, head) + sweep(
            points[head.last() as int],
            points[tail[0] as int],
        ) + path_sweep(points, tail),
    decreases tail.len(),
{
    let joined = head + tail;
    if tail.len() == 1 {
        assert(joined.drop_last() =~= head);
    } else {
        assert(joined.drop_last() =~= head + tail.drop_last());
        lemma_path_joined(points, head, tail.drop_last());
    }
}

/// Cutting a corner off a ring takes the triangle of the corner and its
/// two neighbours from the area inside the ring, and nothing else.
proof fn lemma_area_without_corner(points: Seq<(int, int)>, ring: Seq<usize>, slot: int)
    requires
        ring.len() >= 3,
        0 <= slot < ring.len(),
    ensures
        doubled_area(points, ring) == doubled_area(points, ring.remove(slot)) + doubled_area(
            points,
            seq![
                ring[if slot == 0 { ring.len() - 1 } else { slot - 1 }],
                ring[slot],
                ring[if slot + 1 == ring.len() { 0 } else { slot + 1 }],
            ],
        ),
{
    let len = ring.len() as int;
    let before = ring[if slot == 0 {
        len - 1
    } else {
        slot - 1
    }];
    let after = ring[if slot + 1 == len {
        0
    } else {
        slot + 1
    }];
    let cut = seq![before, ring[slot], after];
    lemma_path_of_three(points, cut);
    let rest = ring.remove(slot);
    let head = ring.subrange(0, slot);
    let tail = ring.subrange(slot + 1, len);
    let corner = seq![ring[slot]];
    assert(rest =~= head + tail);
    assert(path_sweep(points, corner) == 0);
    if slot == 0 {
        assert(ring =~= corner + tail);
        assert(rest =~= tail);
        lemma_path_joined(points, corner, tail);
    } else if slot + 1 == len {
        assert(ring =~= head + corner);
        assert(rest =~= head);
        lemma_path_joined(points, head, corner);
    } else {
        assert(ring =~= (head + corner) + tail);
        lemma_path_joined(points, head, corner);
        lemma_path_joined(points, head + corner, tail);
        lemma_path_joined(points, head, tail);
    }
}

proof fn lemma_cuts_with_one_more(points: Seq<(int, int)>, cuts: Seq<[usize; 3]>, cut: [usize; 3])
    ensures
        cuts_doubled_area(points, cuts.push(cut)) == cuts_doubled_area(points, cuts)
            + doubled_area(points, cut@),
{
    assert(cuts.push(cut).drop_last() =~= cuts);
}

/// A verdict moves area from inside the ring to the cuts, or leaves it
/// where it is: what the run accounts for stays the same.
pub proof fn lemma_step_keeps_area(points: Seq<(int, int)>, state: ClipState, is_ear: bool)
    requires
        state.wf(),
    ensures
        accounted_area(points, state.step(is_ear)) == accounted_area(points, state),
{
    if state.phase == Phase::Probing && is_ear {
        let cut = state.candidate();
        let rest = state.active.remove(state.cursor);
        lemma_area_without_corner(points, state.active, state.cursor);
        assert(cut@ =~= seq![cut[0], cut[1], cut[2]]);
        lemma_cuts_with_one_more(points, state.clipped, cut);
        if rest.len() <= 3 {
            let last = [rest[0], rest[1], rest[2]];
            assert(last@ =~= rest);
            lemma_cuts_with_one_more(points, state.clipped.push(cut), last);
        }
    }
}

/// What a run accounts for is the area of the polygon, whatever the
/// verdicts.
pub proof fn lemma_run_keeps_area(points: Seq<(int, int)>, state: ClipState, verdicts: Seq<bool>)
    requires
        state.wf(),
    ensures
        accounted_area(points, state.run(verdicts)) == accounted_area(points, state),
    decreases verdicts.len(),
{
    if verdicts.len() > 0 {
        lemma_step_keeps_area(points, state, verdicts.first());
        lemma_step_wf(state, verdicts.first());
        lemma_run_keeps_area(points, state.step(verdicts.first()), verdicts.drop_first());
    }
}

/// The triangles of a complete run have, added up, the signed area of the
/// polygon, wherever its corners lie and whatever the verdicts were.
pub proof fn lemma_triangles_keep_area(
    polygon: Seq<usize>,
    pool_len: int,
    verdicts: Seq<bool>,
    points: Seq<(int, int)>,
)
    requires
        polygon_fault(polygon, pool_len) is None,
        polygon.len() <= usize::MAX,
        ClipState::start(polygon, pool_len).run(verdicts).phase == Phase::Complete,
    ensures
        cuts_doubled_area(points, ClipState::start(polygon, pool_len).run(verdicts).clipped)
            == doubled_area(points, all_positions(polygon.len())),
{
    let begin = ClipState::start(polygon, pool_len);
    lemma_start_wf(polygon, pool_len);
    lemma_run_keeps_area(points, begin, verdicts);
    if polygon.len() == 3 {
        let only = begin.clipped[0];
        assert(only@ =~= all_positions(3));
        assert(begin.clipped.drop_last() =~= Seq::<[usize; 3]>::empty());
        assert(cuts_doubled_area(points, begin.clipped.drop_last()) == 0);
    } else {
        assert(begin.active =~= all_positions(polygon.len()));
        assert(begin.phase != Phase::Complete);
    }
}

} // verus!
