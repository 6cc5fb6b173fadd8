//! The model of a clipping run: its state, and what each verdict makes of
//! it.

use crate::calculate::triangulation::{Phase, Triangle};
use crate::error::MeshError;
use vstd::prelude::*;

verus! {

/// The number of corners in a row that may fail to be an ear while
/// `remaining` corners are left.
pub open spec fn attempt_budget(remaining: int) -> int {
    2 * remaining * remaining
}

/// The number of verdicts that a run over `remaining` corners can take at
/// most: the budgets of all the rings from this size down to four.
pub open spec fn total_budget(remaining: int) -> int
    decreases remaining,
{
    if remaining <= 3 {
        0
    } else {
        attempt_budget(remaining) + total_budget(remaining - 1)
    }
}

/// The cuts of a fan over `corners` corners around the last of them: the
/// triangle of the last corner with each pair of neighbouring corners.
pub open spec fn fan(corners: int) -> Seq<[usize; 3]> {
    Seq::new(
        (corners - 2) as nat,
        |k: int|
            if k < corners - 3 {
                [(corners - 1) as usize, k as usize, (k + 1) as usize]
            } else {
                [(corners - 3) as usize, (corners - 2) as usize, (corners - 1) as usize]
            },
    )
}

/// The slot before `slot` on a ring of `size` slots.
pub open spec fn ring_prev(slot: int, size: int) -> int {
    if slot == 0 {
        size - 1
    } else {
        slot - 1
    }
}

/// The slot after `slot` on a ring of `size` slots.
pub open spec fn ring_next(slot: int, size: int) -> int {
    if slot + 1 == size {
        0
    } else {
        slot + 1
    }
}

/// What is wrong with a polygon over a pool of `pool_len` vertices, if
/// anything: too few corners, or a corner that is not in the pool.
pub open spec fn polygon_fault(polygon: Seq<usize>, pool_len: int) -> Option<MeshError> {
    if polygon.len() < 3 {
        Some(MeshError::TooFewVertices)
    } else if exists|i: int| 0 <= i < polygon.len() && polygon[i] >= pool_len {
        Some(MeshError::VertexOutOfRange)
    } else {
        None
    }
}

/// The triangles that cuts stand for: each corner, given as a position in
/// the polygon, replaced by the pool index found there.
pub open spec fn resolved(polygon: Seq<usize>, clipped: Seq<[usize; 3]>) -> Seq<Triangle> {
    Seq::new(
        clipped.len(),
        |i: int|
            Triangle {
                vertices: [
                    polygon[clipped[i][0] as int],
                    polygon[clipped[i][1] as int],
                    polygon[clipped[i][2] as int],
                ],
            },
    )
}

/// The three positions follow one another the way the polygon goes round:
/// read from its lowest position on, the cut rises.
pub open spec fn turns_like_polygon(cut: [usize; 3]) -> bool {
    ||| cut[0] < cut[1] < cut[2]
    ||| cut[1] < cut[2] < cut[0]
    ||| cut[2] < cut[0] < cut[1]
}

/// The state of a clipping run.
pub struct ClipState {
    /// The polygon: the pool index of each corner.
    pub polygon: Seq<usize>,
    /// The size of the vertex pool.
    pub pool_len: int,
    /// The corners not yet cut off, as positions in the polygon, in order.
    pub active: Seq<usize>,
    /// The slot in `active` of the corner being asked about.
    pub cursor: int,
    /// The corners asked about since the last cut, this one included.
    pub attempts: int,
    /// The triangles cut so far, their corners as positions in the polygon.
    pub clipped: Seq<[usize; 3]>,
    /// Where the run stands.
    pub phase: Phase,
}

impl ClipState {
    /// The number of corners not yet cut off.
    pub open spec fn remaining(self) -> int {
        self.active.len() as int
    }

    /// The corner being asked about with its two neighbours on the ring of
    /// active corners, as positions in the polygon: before, self, after.
    pub open spec fn candidate(self) -> [usize; 3] {
        [
            self.active[ring_prev(self.cursor, self.remaining())],
            self.active[self.cursor],
            self.active[ring_next(self.cursor, self.remaining())],
        ]
    }

    /// The slot holds neither the candidate nor one of its neighbours.
    pub open spec fn is_other(self, slot: int) -> bool {
        &&& slot != ring_prev(self.cursor, self.remaining())
        &&& slot != self.cursor
        &&& slot != ring_next(self.cursor, self.remaining())
    }

    /// The active corners in the first `upto` slots that are neither the
    /// candidate nor one of its neighbours, in order.
    pub open spec fn others_upto(self, upto: int) -> Seq<usize>
        decreases upto,
    {
        if upto <= 0 {
            Seq::empty()
        } else if self.is_other(upto - 1) {
            self.others_upto(upto - 1).push(self.active[upto - 1])
        } else {
            self.others_upto(upto - 1)
        }
    }

    /// The active corners that must not lie inside the candidate's triangle
    /// for the candidate to be an ear.
    pub open spec fn others(self) -> Seq<usize> {
        self.others_upto(self.remaining())
    }

    /// The triangles cut so far, as pool indices.
    pub open spec fn triangles(self) -> Seq<Triangle> {
        resolved(self.polygon, self.clipped)
    }

    /// Opens the next round: with three corners left they are the last
    /// triangle; otherwise one more attempt is counted, and the run is
    /// stuck once the count exceeds the budget.
    pub open spec fn settle(self) -> ClipState {
        if self.active.len() <= 3 {
            ClipState {
                clipped: self.clipped.push([self.active[0], self.active[1], self.active[2]]),
                phase: Phase::Complete,
                ..self
            }
        } else if self.attempts + 1 > attempt_budget(self.remaining()) {
            ClipState { attempts: self.attempts + 1, phase: Phase::Stuck, ..self }
        } else {
            ClipState { attempts: self.attempts + 1, phase: Phase::Probing, ..self }
        }
    }

    /// The state in which a run over `polygon` begins.
    pub open spec fn start(polygon: Seq<usize>, pool_len: int) -> ClipState {
        ClipState {
            polygon,
            pool_len,
            active: Seq::new(polygon.len(), |i: int| i as usize),
            cursor: 0,
            attempts: 0,
            clipped: Seq::empty(),
            phase: Phase::Probing,
        }.settle()
    }

    /// The state after the verdict on the candidate. An ear is cut off: its
    /// triangle is recorded, the corner leaves the ring, and the count of
    /// attempts starts over. Otherwise the cursor moves to the next corner.
    /// A run that is complete or stuck stays as it is.
    pub open spec fn step(self, is_ear: bool) -> ClipState {
        if self.phase != Phase::Probing {
            self
        } else if is_ear {
            ClipState {
                active: self.active.remove(self.cursor),
                cursor: if self.cursor + 1 == self.remaining() {
                    0
                } else {
                    self.cursor
                },
                attempts: 0,
                clipped: self.clipped.push(self.candidate()),
                ..self
            }.settle()
        } else {
            ClipState { cursor: ring_next(self.cursor, self.remaining()), ..self }.settle()
        }
    }

    /// The state after a sequence of verdicts, taken in order.
    pub open spec fn run(self, verdicts: Seq<bool>) -> ClipState
        decreases verdicts.len(),
    {
        if verdicts.len() == 0 {
            self
        } else {
            self.step(verdicts.first()).run(verdicts.drop_first())
        }
    }

    /// A bound on the verdicts that the run can still take before it is
    /// complete or stuck.
    pub open spec fn verdicts_left(self) -> int {
        if self.phase == Phase::Probing {
            attempt_budget(self.remaining()) - self.attempts + 1 + total_budget(
                self.remaining() - 1,
            )
        } else {
            0
        }
    }

    /// The three corners of a cut are positions in the polygon, and they
    /// follow one another the way the polygon goes round: from some corner
    /// of the cut on, the positions rise. No two of them are the same.
    pub open spec fn is_cut(self, cut: [usize; 3]) -> bool {
        &&& cut[0] < self.polygon.len()
        &&& cut[1] < self.polygon.len()
        &&& cut[2] < self.polygon.len()
        &&& turns_like_polygon(cut)
    }

    /// The invariant of a run: the active corners are positions in the
    /// polygon in rising order, at least three of them; every cut removed
    /// one corner; and the counters are within their bounds.
    pub open spec fn wf(self) -> bool {
        &&& self.polygon.len() >= 3
        &&& forall|i: int| 0 <= i < self.polygon.len() ==> (#[trigger] self.polygon[i]) < self.pool_len
        &&& self.active.len() >= 3
        &&& forall|i: int| 0 <= i < self.active.len() ==> (#[trigger] self.active[i]) < self.polygon.len()
        &&& forall|i: int, j: int|
            0 <= i < j < self.active.len() ==> (#[trigger] self.active[i]) < (#[trigger] self.active[j])
        &&& forall|i: int| 0 <= i < self.clipped.len() ==> self.is_cut(#[trigger] self.clipped[i])
        &&& 0 <= self.cursor < self.active.len()
        &&& match self.phase {
            Phase::Probing => {
                &&& self.active.len() > 3
                &&& 1 <= self.attempts <= attempt_budget(self.remaining())
                &&& self.clipped.len() + self.active.len() == self.polygon.len()
            },
            Phase::Stuck => {
                &&& self.active.len() > 3
                &&& self.attempts == attempt_budget(self.remaining()) + 1
                &&& self.clipped.len() + self.active.len() == self.polygon.len()
            },
            Phase::Complete => {
                &&& self.active.len() == 3
                &&& self.clipped.len() + 2 == self.polygon.len()
            },
        }
    }
}

/// The three corners are positions in a polygon of `corners` corners.
pub open spec fn in_polygon(cut: [usize; 3], corners: int) -> bool {
    cut[0] < corners && cut[1] < corners && cut[2] < corners
}

/// `verdict` is an answer that the two predicates may give on the candidate
/// of `state`: an ear is a corner of which `is_convex` holds and with no
/// other corner of which `is_inside` holds.
pub open spec fn may_answer<C, I>(is_convex: C, is_inside: I, state: ClipState, verdict: bool) -> bool
    where
    C: Fn([usize; 3]) -> bool,
    I: Fn([usize; 3], usize) -> bool,
 {
    if verdict {
        &&& call_ensures(is_convex, (state.candidate(),), true)
        &&& forall|k: int|
            0 <= k < state.others().len() ==> call_ensures(
                is_inside,
                (state.candidate(), #[trigger] state.others()[k]),
                false,
            )
    } else {
        ||| call_ensures(is_convex, (state.candidate(),), false)
        ||| exists|k: int|
            0 <= k < state.others().len() && call_ensures(
                is_inside,
                (state.candidate(), #[trigger] state.others()[k]),
                true,
            )
    }
}

/// The verdicts are answers that the two predicates may give, one after
/// the other, on the candidates of a run from `state`, and the run is
/// probing when each of them is taken.
pub open spec fn may_answer_all<C, I>(
    is_convex: C,
    is_inside: I,
    state: ClipState,
    verdicts: Seq<bool>,
) -> bool where C: Fn([usize; 3]) -> bool, I: Fn([usize; 3], usize) -> bool
    decreases verdicts.len(),
{
    verdicts.len() == 0 || {
        &&& state.phase == Phase::Probing
        &&& may_answer(is_convex, is_inside, state, verdicts.first())
        &&& may_answer_all(
            is_convex,
            is_inside,
            state.step(verdicts.first()),
            verdicts.drop_first(),
        )
    }
}

} // verus!
