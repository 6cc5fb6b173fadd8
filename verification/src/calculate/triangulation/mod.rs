//! Ear clipping: cutting a simple polygon into triangles by removing, one
//! at a time, a corner whose triangle with its two neighbours lies inside
//! the polygon.
//!
//! A polygon is an ordered list of indices into a pool of vertices. Whether
//! a corner is an ear is a question about coordinates and is answered
//! outside; everything else is decided here: which corner is asked about
//! next, what is cut off, and when the search is given up.

pub mod area;
pub mod laws;
pub mod state;

use crate::calculate::triangulation::laws::{
    lemma_may_answer_push, lemma_run_push, lemma_start_wf, lemma_step_progress, lemma_step_wf,
};
use crate::calculate::triangulation::state::{
    attempt_budget, in_polygon, may_answer, may_answer_all, polygon_fault, resolved, ring_next,
    ring_prev, ClipState,
};
use crate::error::MeshError;
use vstd::pervasive::unreached;
use vstd::prelude::*;

verus! {

/// A triangle of a triangulation: the pool indices of its three corners, in
/// the order in which they were cut.
#[derive(Clone, Copy, Debug, PartialEq, Eq)]
pub struct Triangle {
    pub vertices: [usize; 3],
}

/// Where a clipping run stands.
#[derive(Clone, Copy, Debug, PartialEq, Eq, Structural)]
pub enum Phase {
    /// A corner is waiting for its verdict.
    Probing,
    /// The polygon has been cut into triangles.
    Complete,
    /// Too many corners in a row were no ears: the polygon is taken to be
    /// non-simple.
    Stuck,
}

/// Checks a polygon against its pool: at least three corners, each of them
/// in the pool.
pub fn check_polygon(pool_len: usize, indices: &[usize]) -> (checked: Result<(), MeshError>)
    ensures
        match checked {
            Ok(_) => polygon_fault(indices@, pool_len as int) is None,
            Err(error) => polygon_fault(indices@, pool_len as int) == Some(error),
        },
{
    if indices.len() < 3 {
        return Err(MeshError::TooFewVertices);
    }
    let mut i: usize = 0;
    while i < indices.len()
        invariant
            3 <= indices.len(),
            i <= indices.len(),
            forall|k: int| 0 <= k < i ==> (#[trigger] indices@[k]) < pool_len,
        decreases indices.len() - i,
    {
        if indices[i] >= pool_len {
            assert(0 <= i < indices@.len() && indices@[i as int] >= pool_len);
            return Err(MeshError::VertexOutOfRange);
        }
        i += 1;
    }
    Ok(())
}

/// The data of a clipping run. Its methods say what they need and keep of
/// the invariant; `EarClipper` seals it.
struct Ring {
    polygon: Vec<usize>,
    pool_len: usize,
    active: Vec<usize>,
    cursor: usize,
    /// The attempts since the last cut are twice `attempt_pairs`, and one
    /// more if `attempt_odd`: the budget is twice a square, and the square
    /// of a `usize` fits where its double may not.
    attempt_pairs: u128,
    attempt_odd: bool,
    clipped: Vec<[usize; 3]>,
    phase: Phase,
}

impl View for Ring {
    type V = ClipState;

    closed spec fn view(&self) -> ClipState {
        ClipState {
            polygon: self.polygon@,
            pool_len: self.pool_len as int,
            active: self.active@,
            cursor: self.cursor as int,
            attempts: 2 * self.attempt_pairs + if self.attempt_odd {
                1int
            } else {
                0int
            },
            clipped: self.clipped@,
            phase: self.phase,
        }
    }
}

impl Ring {
    /// The run is well-formed.
    spec fn wf(&self) -> bool {
        self@.wf()
    }

    fn new(pool_len: usize, indices: &[usize]) -> (made: Result<Ring, MeshError>)
        ensures
            match made {
                Ok(clipper) => {
                    &&& polygon_fault(indices@, pool_len as int) is None
                    &&& clipper@ == ClipState::start(indices@, pool_len as int)
                    &&& clipper.wf()
                },
                Err(error) => polygon_fault(indices@, pool_len as int) == Some(error),
            },
    {
        match check_polygon(pool_len, indices) {
            Ok(_) => {},
            Err(error) => {
                return Err(error);
            },
        }
        let corners: usize = indices.len();
        let mut polygon: Vec<usize> = Vec::new();
        let mut active: Vec<usize> = Vec::new();
        let mut i: usize = 0;
        while i < corners
            invariant
                corners == indices.len(),
                i <= corners,
                polygon@ == indices@.subrange(0, i as int),
                active@ == Seq::new(i as nat, |k: int| k as usize),
            decreases corners - i,
        {
            polygon.push(indices[i]);
            active.push(i);
            i += 1;
            assert(polygon@ =~= indices@.subrange(0, i as int));
            assert(active@ =~= Seq::new(i as nat, |k: int| k as usize));
        }
        assert(polygon@ =~= indices@);
        let mut clipper = Ring {
            polygon,
            pool_len,
            active,
            cursor: 0,
            attempt_pairs: 0,
            attempt_odd: false,
            clipped: Vec::new(),
            phase: Phase::Probing,
        };
        proof {
            assert(attempt_budget(corners as int) >= 0) by (nonlinear_arith);
            lemma_start_wf(indices@, pool_len as int);
        }
        clipper.settle();
        Ok(clipper)
    }

    /// Opens the next round: the last triangle, or one more attempt.
    fn settle(&mut self)
        requires
            old(self).active@.len() >= 3,
            old(self).active@.len() > 3 ==> 0 <= old(self)@.attempts <= attempt_budget(
                old(self)@.remaining(),
            ),
        ensures
            final(self)@ == old(self)@.settle(),
    {
        let left: usize = self.active.len();
        if left <= 3 {
            let cut = [self.active[0], self.active[1], self.active[2]];
            self.clipped.push(cut);
            self.phase = Phase::Complete;
        } else {
            let wide: u128 = left as u128;
            assert(wide * wide <= 0xffff_ffff_ffff_ffff * 0xffff_ffff_ffff_ffff) by (nonlinear_arith)
                requires
                    0 <= wide <= 0xffff_ffff_ffff_ffff,
            ;
            let square: u128 = wide * wide;
            assert(attempt_budget(left as int) == 2 * square) by (nonlinear_arith)
                requires
                    square == wide * wide,
                    wide == left,
            ;
            if self.attempt_odd {
                self.attempt_pairs = self.attempt_pairs + 1;
                self.attempt_odd = false;
            } else {
                self.attempt_odd = true;
            }
            if self.attempt_pairs > square || (self.attempt_pairs == square && self.attempt_odd) {
                self.phase = Phase::Stuck;
            } else {
                self.phase = Phase::Probing;
            }
        }
    }

    fn phase(&self) -> (phase: Phase)
        ensures
            phase == self@.phase,
    {
        self.phase
    }

    fn candidate(&self) -> (corners: Option<[usize; 3]>)
        requires
            self.wf(),
        ensures
            corners == if self@.phase == Phase::Probing {
                Some(self@.candidate())
            } else {
                None
            },
            corners matches Some(cut) ==> self@.is_cut(cut),
    {
        match self.phase {
            Phase::Probing => {
                let left: usize = self.active.len();
                let before: usize = if self.cursor == 0 {
                    left - 1
                } else {
                    self.cursor - 1
                };
                let after: usize = if self.cursor + 1 == left {
                    0
                } else {
                    self.cursor + 1
                };
                Some([self.active[before], self.active[self.cursor], self.active[after]])
            },
            _ => None,
        }
    }

    fn others(&self) -> (corners: Vec<usize>)
        requires
            self.wf(),
        ensures
            corners@ == if self@.phase == Phase::Probing {
                self@.others()
            } else {
                Seq::<usize>::empty()
            },
            forall|k: int| 0 <= k < corners@.len() ==> (#[trigger] corners@[k]) < self@.polygon.len(),
    {
        let mut corners: Vec<usize> = Vec::new();
        match self.phase {
            Phase::Probing => {},
            _ => {
                return corners;
            },
        }
        let left: usize = self.active.len();
        let before: usize = if self.cursor == 0 {
            left - 1
        } else {
            self.cursor - 1
        };
        let after: usize = if self.cursor + 1 == left {
            0
        } else {
            self.cursor + 1
        };
        let mut slot: usize = 0;
        while slot < left
            invariant
                self.wf(),
                left == self.active@.len(),
                slot <= left,
                before == ring_prev(self@.cursor, self@.remaining()),
                after == ring_next(self@.cursor, self@.remaining()),
                corners@ == self@.others_upto(slot as int),
                forall|k: int|
                    0 <= k < corners@.len() ==> (#[trigger] corners@[k]) < self@.polygon.len(),
            decreases left - slot,
        {
            if slot != before && slot != self.cursor && slot != after {
                corners.push(self.active[slot]);
            }
            slot += 1;
        }
        corners
    }

    fn step(&mut self, is_ear: bool)
        requires
            old(self).wf(),
        ensures
            final(self).wf(),
            final(self)@ == old(self)@.step(is_ear),
    {
        match self.phase {
            Phase::Probing => {},
            _ => {
                return ;
            },
        }
        let left: usize = self.active.len();
        if is_ear {
            let before: usize = if self.cursor == 0 {
                left - 1
            } else {
                self.cursor - 1
            };
            let after: usize = if self.cursor + 1 == left {
                0
            } else {
                self.cursor + 1
            };
            let cut = [self.active[before], self.active[self.cursor], self.active[after]];
            self.clipped.push(cut);
            self.active.remove(self.cursor);
            if self.cursor + 1 == left {
                self.cursor = 0;
            }
            self.attempt_pairs = 0;
            self.attempt_odd = false;
            proof {
                assert(attempt_budget(left - 1) >= 0) by (nonlinear_arith);
            }
        } else {
            self.cursor = if self.cursor + 1 == left {
                0
            } else {
                self.cursor + 1
            };
        }
        self.settle();
        proof {
            lemma_step_wf(old(self)@, is_ear);
        }
    }

    fn outcome(&self) -> (result: Option<Result<Vec<Triangle>, MeshError>>)
        requires
            self.wf(),
        ensures
            match self@.phase {
                Phase::Probing => result is None,
                Phase::Stuck => result == Some(
                    Err::<Vec<Triangle>, MeshError>(MeshError::NonSimplePolygon),
                ),
                Phase::Complete => result matches Some(Ok(triangles)) && {
                    &&& triangles@ == self@.triangles()
                    &&& triangles@.len() + 2 == self@.polygon.len()
                    &&& forall|i: int, k: int|
                        0 <= i < triangles@.len() && 0 <= k < 3 ==> (
                        #[trigger] triangles@[i].vertices[k]) < self@.pool_len
                },
            },
    {
        match self.phase {
            Phase::Probing => None,
            Phase::Stuck => Some(Err(MeshError::NonSimplePolygon)),
            Phase::Complete => {
                let mut triangles: Vec<Triangle> = Vec::new();
                let mut i: usize = 0;
                while i < self.clipped.len()
                    invariant
                        self.wf(),
                        i <= self.clipped@.len(),
                        triangles@ == resolved(self.polygon@, self.clipped@.subrange(0, i as int)),
                    decreases self.clipped.len() - i,
                {
                    let cut = self.clipped[i];
                    proof {
                        assert(self@.is_cut(self@.clipped[i as int]));
                    }
                    triangles.push(
                        Triangle {
                            vertices: [
                                self.polygon[cut[0]],
                                self.polygon[cut[1]],
                                self.polygon[cut[2]],
                            ],
                        },
                    );
                    i += 1;
                    assert(triangles@ =~= resolved(
                        self.polygon@,
                        self.clipped@.subrange(0, i as int),
                    ));
                }
                assert(self.clipped@.subrange(0, i as int) =~= self.clipped@);
                assert forall|j: int, k: int|
                    0 <= j < triangles@.len() && 0 <= k < 3 implies (
                #[trigger] triangles@[j].vertices[k]) < self@.pool_len by {
                    assert(self@.is_cut(self@.clipped[j]));
                }
                Some(Ok(triangles))
            },
        }
    }
}

/// A clipping run over one polygon.
///
/// The caller asks for the [`candidate`](EarClipper::candidate), decides
/// whether it is an ear, and hands the verdict to
/// [`step`](EarClipper::step), until the run is no longer probing.
pub struct EarClipper {
    ring: Ring,
}

impl View for EarClipper {
    type V = ClipState;

    closed spec fn view(&self) -> ClipState {
        self.ring@
    }
}

impl EarClipper {
    #[verifier::type_invariant]
    spec fn sound(self) -> bool {
        self.ring@.wf()
    }

    /// Begins a run over the polygon `indices`, whose entries index a pool
    /// of `pool_len` vertices. A polygon of three corners is complete at
    /// once.
    pub fn new(pool_len: usize, indices: &[usize]) -> (made: Result<EarClipper, MeshError>)
        ensures
            match made {
                Ok(clipper) => {
                    &&& polygon_fault(indices@, pool_len as int) is None
                    &&& clipper@ == ClipState::start(indices@, pool_len as int)
                    &&& clipper@.wf()
                },
                Err(error) => polygon_fault(indices@, pool_len as int) == Some(error),
            },
    {
        match Ring::new(pool_len, indices) {
            Ok(ring) => Ok(EarClipper { ring }),
            Err(error) => Err(error),
        }
    }

    /// Where the run stands.
    pub fn phase(&self) -> (phase: Phase)
        ensures
            phase == self@.phase,
    {
        self.ring.phase()
    }

    /// The corner that waits for its verdict, with the corner before it and
    /// the corner after it among those not yet cut off: three positions in
    /// the polygon. Nothing once the run is complete or stuck.
    pub fn candidate(&self) -> (corners: Option<[usize; 3]>)
        ensures
            corners == if self@.phase == Phase::Probing {
                Some(self@.candidate())
            } else {
                None
            },
            corners matches Some(cut) ==> self@.is_cut(cut),
    {
        proof {
            use_type_invariant(self);
        }
        self.ring.candidate()
    }

    /// The corners not yet cut off other than the candidate and its two
    /// neighbours, as positions in the polygon, in order. The candidate is
    /// an ear only if none of them lies inside its triangle. Nothing once
    /// the run is complete or stuck.
    pub fn others(&self) -> (corners: Vec<usize>)
        ensures
            corners@ == if self@.phase == Phase::Probing {
                self@.others()
            } else {
                Seq::<usize>::empty()
            },
            forall|k: int| 0 <= k < corners@.len() ==> (#[trigger] corners@[k]) < self@.polygon.len(),
    {
        proof {
            use_type_invariant(self);
        }
        self.ring.others()
    }

    /// Takes the verdict on the candidate: an ear is cut off, any other
    /// corner is passed over. A run that is complete or stuck stays as it
    /// is.
    pub fn step(self, is_ear: bool) -> (next: EarClipper)
        ensures
            next@ == self@.step(is_ear),
            next@.wf(),
    {
        proof {
            use_type_invariant(&self);
        }
        let mut ring = self.ring;
        ring.step(is_ear);
        EarClipper { ring }
    }

    /// The result of the run: nothing while a corner waits for its
    /// verdict; the triangles, two fewer than the polygon has corners, once
    /// it is complete; a failure once it is stuck.
    pub fn outcome(&self) -> (result: Option<Result<Vec<Triangle>, MeshError>>)
        ensures
            match self@.phase {
                Phase::Probing => result is None,
                Phase::Stuck => result == Some(
                    Err::<Vec<Triangle>, MeshError>(MeshError::NonSimplePolygon),
                ),
                Phase::Complete => result matches Some(Ok(triangles)) && {
                    &&& triangles@ == self@.triangles()
                    &&& triangles@.len() + 2 == self@.polygon.len()
                    &&& forall|i: int, k: int|
                        0 <= i < triangles@.len() && 0 <= k < 3 ==> (
                        #[trigger] triangles@[i].vertices[k]) < self@.pool_len
                },
            },
    {
        proof {
            use_type_invariant(self);
        }
        self.ring.outcome()
    }
}

/// Cuts the polygon `indices`, whose entries index a pool of `pool_len`
/// vertices, into triangles.
///
/// A corner is cut off as an ear where `is_convex` holds of it and its two
/// neighbours and `is_inside` holds of none of the other corners that are
/// left; both are asked about positions in the polygon. Corners are asked
/// about in turn, and the search is given up once twice the square of the
/// number of corners left have failed in a row.
pub fn triangulate<C, I>(pool_len: usize, indices: &[usize], is_convex: C, is_inside: I) -> (result:
    Result<Vec<Triangle>, MeshError>) where
    C: Fn([usize; 3]) -> bool,
    I: Fn([usize; 3], usize) -> bool,

    requires
        forall|cut: [usize; 3]|
            in_polygon(cut, indices@.len() as int) ==> call_requires(is_convex, (cut,)),
        forall|cut: [usize; 3], other: usize|
            in_polygon(cut, indices@.len() as int) && other < indices@.len() ==> call_requires(
                is_inside,
                (cut, other),
            ),
    ensures
        match result {
            Ok(triangles) => {
                &&& polygon_fault(indices@, pool_len as int) is None
                &&& triangles@.len() + 2 == indices@.len()
                &&& forall|i: int, k: int|
                    0 <= i < triangles@.len() && 0 <= k < 3 ==> (
                    #[trigger] triangles@[i].vertices[k]) < pool_len
                &&& exists|verdicts: Seq<bool>|
                    {
                        &&& #[trigger] may_answer_all(
                            is_convex,
                            is_inside,
                            ClipState::start(indices@, pool_len as int),
                            verdicts,
                        )
                        &&& ClipState::start(indices@, pool_len as int).run(verdicts).phase
                            == Phase::Complete
                        &&& triangles@ == ClipState::start(indices@, pool_len as int).run(
                            verdicts,
                        ).triangles()
                    }
            },
            Err(error) => {
                ||| polygon_fault(indices@, pool_len as int) == Some(error)
                ||| {
                    &&& polygon_fault(indices@, pool_len as int) is None
                    &&& error == MeshError::NonSimplePolygon
                    &&& exists|verdicts: Seq<bool>|
                        {
                            &&& #[trigger] may_answer_all(
                                is_convex,
                                is_inside,
                                ClipState::start(indices@, pool_len as int),
                                verdicts,
                            )
                            &&& ClipState::start(indices@, pool_len as int).run(verdicts).phase
                                == Phase::Stuck
                        }
                }
            },
        },
{
    let mut clipper = match EarClipper::new(pool_len, indices) {
        Ok(clipper) => clipper,
        Err(error) => {
            return Err(error);
        },
    };
    let ghost begin = clipper@;
    let ghost mut verdicts: Seq<bool> = Seq::empty();
    loop
        invariant
            clipper@.wf(),
            begin == ClipState::start(indices@, pool_len as int),
            clipper@ == begin.run(verdicts),
            may_answer_all(is_convex, is_inside, begin, verdicts),
            clipper@.polygon == indices@,
            polygon_fault(indices@, pool_len as int) is None,
            forall|cut: [usize; 3]|
                in_polygon(cut, indices@.len() as int) ==> call_requires(is_convex, (cut,)),
            forall|cut: [usize; 3], other: usize|
                in_polygon(cut, indices@.len() as int) && other < indices@.len()
                    ==> call_requires(is_inside, (cut, other)),
        decreases clipper@.verdicts_left(),
    {
        match clipper.outcome() {
            Some(result) => {
                return result;
            },
            None => {},
        }
        let cut = match clipper.candidate() {
            Some(cut) => cut,
            None => unreached(),
        };
        assert(in_polygon(cut, indices@.len() as int));
        let mut ear: bool = is_convex(cut);
        if ear {
            let others = clipper.others();
            let mut k: usize = 0;
            while ear && k < others.len()
                invariant
                    k <= others@.len(),
                    in_polygon(cut, indices@.len() as int),
                    cut == clipper@.candidate(),
                    others@ == clipper@.others(),
                    call_ensures(is_convex, (cut,), true),
                    ear ==> forall|j: int|
                        0 <= j < k ==> call_ensures(is_inside, (cut, #[trigger] others@[j]), false),
                    !ear ==> exists|j: int|
                        0 <= j < others@.len() && call_ensures(
                            is_inside,
                            (cut, #[trigger] others@[j]),
                            true,
                        ),
                    forall|j: int| 0 <= j < others@.len() ==> (#[trigger] others@[j]) < indices@.len(),
                    forall|cut: [usize; 3], other: usize|
                        in_polygon(cut, indices@.len() as int) && other < indices@.len()
                            ==> call_requires(is_inside, (cut, other)),
                decreases others.len() - k,
            {
                if is_inside(cut, others[k]) {
                    ear = false;
                }
                k += 1;
            }
        }
        proof {
            assert(may_answer(is_convex, is_inside, clipper@, ear));
            lemma_step_progress(clipper@, ear);
            lemma_run_push(begin, verdicts, ear);
            lemma_may_answer_push(is_convex, is_inside, begin, verdicts, ear);
            verdicts = verdicts.push(ear);
        }
        clipper = clipper.step(ear);
    }
}

} // verus!
