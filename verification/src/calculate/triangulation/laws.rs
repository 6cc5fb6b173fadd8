//! What holds of every clipping run.

use crate::calculate::triangulation::state::{
    attempt_budget, fan, may_answer, may_answer_all, polygon_fault, ring_next, ring_prev,
    total_budget, turns_like_polygon, ClipState,
};
use crate::calculate::triangulation::Phase;
use vstd::arithmetic::div_mod::{lemma_mod_add_multiples_vanish, lemma_mod_self_0, lemma_small_mod};
use vstd::prelude::*;

verus! {

/// The neighbours on a ring are those that arithmetic modulo its size
/// gives.
pub proof fn lemma_ring_is_modular(slot: int, size: int)
    requires
        0 <= slot < size,
    ensures
        ring_prev(slot, size) == (slot + size - 1) % size,
        ring_next(slot, size) == (slot + 1) % size,
{
    if slot == 0 {
        lemma_small_mod((size - 1) as nat, size as nat);
    } else {
        lemma_mod_add_multiples_vanish(slot - 1, size);
        lemma_small_mod((slot - 1) as nat, size as nat);
    }
    if slot + 1 == size {
        lemma_mod_self_0(size);
    } else {
        lemma_small_mod((slot + 1) as nat, size as nat);
    }
}

/// A run begins well-formed.
pub proof fn lemma_start_wf(polygon: Seq<usize>, pool_len: int)
    requires
        polygon_fault(polygon, pool_len) is None,
        polygon.len() <= usize::MAX,
    ensures
        ClipState::start(polygon, pool_len).wf(),
{
    let s = ClipState::start(polygon, pool_len);
    assert forall|i: int| 0 <= i < polygon.len() implies (#[trigger] polygon[i]) < pool_len by {
        if polygon[i] >= pool_len {
            assert(polygon_fault(polygon, pool_len) is Some);
        }
    }
    if polygon.len() > 3 {
        assert(attempt_budget(polygon.len() as int) >= 1) by (nonlinear_arith)
            requires
                polygon.len() > 3,
        ;
    } else {
        let cut = s.clipped[0];
        assert(s.is_cut(cut));
    }
}

/// Every verdict leaves a well-formed run well-formed.
pub proof fn lemma_step_wf(state: ClipState, is_ear: bool)
    requires
        state.wf(),
    ensures
        state.step(is_ear).wf(),
{
    if state.phase == Phase::Probing && is_ear {
        let r = state.remaining();
        let cut = state.candidate();
        assert(state.is_cut(cut));
        let mid = ClipState {
            active: state.active.remove(state.cursor),
            cursor: if state.cursor + 1 == r {
                0
            } else {
                state.cursor
            },
            attempts: 0,
            clipped: state.clipped.push(cut),
            ..state
        };
        assert forall|i: int| 0 <= i < mid.active.len() implies (#[trigger] mid.active[i])
            < mid.polygon.len() by {
            let from = if i < state.cursor { i } else { i + 1 };
            assert(mid.active[i] == state.active[from]);
        }
        assert forall|i: int, j: int| 0 <= i < j < mid.active.len() implies (
        #[trigger] mid.active[i]) < (#[trigger] mid.active[j]) by {
            let a = if i < state.cursor { i } else { i + 1 };
            let b = if j < state.cursor { j } else { j + 1 };
            assert(mid.active[i] == state.active[a]);
            assert(mid.active[j] == state.active[b]);
        }
        let next = mid.settle();
        if mid.active.len() <= 3 {
            let last = [mid.active[0], mid.active[1], mid.active[2]];
            assert(next.is_cut(last));
        } else {
            assert(attempt_budget(mid.remaining()) >= 1) by (nonlinear_arith)
                requires
                    mid.remaining() > 3,
            ;
        }
        assert forall|i: int| 0 <= i < next.clipped.len() implies next.is_cut(
            #[trigger] next.clipped[i],
        ) by {
            if i < state.clipped.len() {
                assert(state.is_cut(state.clipped[i]));
            }
        }
    }
}

proof fn lemma_total_budget_nonnegative(remaining: int)
    ensures
        total_budget(remaining) >= 0,
    decreases remaining,
{
    if remaining > 3 {
        lemma_total_budget_nonnegative(remaining - 1);
        assert(attempt_budget(remaining) >= 0) by (nonlinear_arith);
    }
}

/// Every verdict on a probing run brings it nearer to its end.
pub proof fn lemma_step_progress(state: ClipState, is_ear: bool)
    requires
        state.wf(),
        state.phase == Phase::Probing,
    ensures
        0 <= state.step(is_ear).verdicts_left() < state.verdicts_left(),
{
    let r = state.remaining();
    lemma_total_budget_nonnegative(r - 1);
    lemma_total_budget_nonnegative(r - 2);
    lemma_step_wf(state, is_ear);
    assert(attempt_budget(r - 1) >= 0) by (nonlinear_arith);
}

/// A run stays well-formed under any verdicts, and over the same polygon.
pub proof fn lemma_run_wf(state: ClipState, verdicts: Seq<bool>)
    requires
        state.wf(),
    ensures
        state.run(verdicts).wf(),
        state.run(verdicts).polygon == state.polygon,
        state.run(verdicts).pool_len == state.pool_len,
    decreases verdicts.len(),
{
    if verdicts.len() > 0 {
        lemma_step_wf(state, verdicts.first());
        lemma_run_wf(state.step(verdicts.first()), verdicts.drop_first());
    }
}

/// A run that is complete or stuck is not changed by further verdicts.
pub proof fn lemma_run_settled(state: ClipState, verdicts: Seq<bool>)
    requires
        state.phase != Phase::Probing,
    ensures
        state.run(verdicts) == state,
    decreases verdicts.len(),
{
    if verdicts.len() > 0 {
        lemma_run_settled(state, verdicts.drop_first());
    }
}

/// A run given as many verdicts as it can still take is complete or stuck.
pub proof fn lemma_run_ends_from(state: ClipState, verdicts: Seq<bool>)
    requires
        state.wf(),
        verdicts.len() >= state.verdicts_left(),
    ensures
        state.run(verdicts).phase != Phase::Probing,
    decreases verdicts.len(),
{
    if state.phase == Phase::Probing {
        lemma_step_progress(state, verdicts.first());
        lemma_step_wf(state, verdicts.first());
        lemma_run_ends_from(state.step(verdicts.first()), verdicts.drop_first());
    } else {
        lemma_run_settled(state, verdicts);
    }
}

/// Triangulation never hangs: whatever the verdicts, a run over a polygon
/// of n corners is complete or stuck after at most `total_budget(n)` of
/// them.
pub proof fn lemma_run_ends(polygon: Seq<usize>, pool_len: int, verdicts: Seq<bool>)
    requires
        polygon_fault(polygon, pool_len) is None,
        polygon.len() <= usize::MAX,
        verdicts.len() >= total_budget(polygon.len() as int),
    ensures
        ClipState::start(polygon, pool_len).run(verdicts).phase != Phase::Probing,
{
    lemma_start_wf(polygon, pool_len);
    lemma_total_budget_nonnegative(polygon.len() as int);
    lemma_run_ends_from(ClipState::start(polygon, pool_len), verdicts);
}

/// A complete run has cut a polygon of n corners into n - 2 triangles,
/// each with its corners in the pool, whatever the verdicts were.
pub proof fn lemma_complete_run_count(polygon: Seq<usize>, pool_len: int, verdicts: Seq<bool>)
    requires
        polygon_fault(polygon, pool_len) is None,
        polygon.len() <= usize::MAX,
        ClipState::start(polygon, pool_len).run(verdicts).phase == Phase::Complete,
    ensures
        ClipState::start(polygon, pool_len).run(verdicts).triangles().len() == polygon.len() - 2,
        forall|i: int, k: int|
            0 <= i < polygon.len() - 2 && 0 <= k < 3 ==> (#[trigger] ClipState::start(
                polygon,
                pool_len,
            ).run(verdicts).triangles()[i].vertices[k]) < pool_len,
{
    lemma_start_wf(polygon, pool_len);
    let end = ClipState::start(polygon, pool_len).run(verdicts);
    lemma_run_wf(ClipState::start(polygon, pool_len), verdicts);
    assert(end.wf());
    assert(end.polygon == polygon);
    assert(end.clipped.len() + 2 == polygon.len());
    assert forall|i: int, k: int| 0 <= i < polygon.len() - 2 && 0 <= k < 3 implies (
    #[trigger] end.triangles()[i].vertices[k]) < pool_len by {
        assert(end.is_cut(end.clipped[i]));
    }
}

/// Every triangle of a run, whatever the verdicts, has its corners in the
/// order in which the polygon goes round, so that all triangles turn the
/// way the polygon does.
pub proof fn lemma_cuts_turn_like_polygon(polygon: Seq<usize>, pool_len: int, verdicts: Seq<bool>)
    requires
        polygon_fault(polygon, pool_len) is None,
        polygon.len() <= usize::MAX,
    ensures
        forall|i: int|
            0 <= i < ClipState::start(polygon, pool_len).run(verdicts).clipped.len()
                ==> turns_like_polygon(
                #[trigger] ClipState::start(polygon, pool_len).run(verdicts).clipped[i],
            ),
{
    lemma_start_wf(polygon, pool_len);
    lemma_run_wf(ClipState::start(polygon, pool_len), verdicts);
    let end = ClipState::start(polygon, pool_len).run(verdicts);
    assert forall|i: int| 0 <= i < end.clipped.len() implies turns_like_polygon(
        #[trigger] end.clipped[i],
    ) by {
        assert(end.is_cut(end.clipped[i]));
    }
}

proof fn lemma_no_ear_from(state: ClipState, verdicts: Seq<bool>)
    requires
        state.wf(),
        state.phase == Phase::Probing,
        forall|i: int| 0 <= i < verdicts.len() ==> !verdicts[i],
        verdicts.len() >= attempt_budget(state.remaining()) - state.attempts + 1,
    ensures
        state.run(verdicts).phase == Phase::Stuck,
        state.run(verdicts).clipped == state.clipped,
    decreases verdicts.len(),
{
    let next = state.step(verdicts.first());
    lemma_step_wf(state, verdicts.first());
    if next.phase == Phase::Probing {
        lemma_no_ear_from(next, verdicts.drop_first());
    } else {
        lemma_run_settled(next, verdicts.drop_first());
    }
}

/// A polygon of more than three corners in which no corner asked about is
/// ever an ear is given up: the run is stuck once the budget of attempts is
/// spent, and has cut nothing.
pub proof fn lemma_no_ear_gets_stuck(polygon: Seq<usize>, pool_len: int, verdicts: Seq<bool>)
    requires
        polygon_fault(polygon, pool_len) is None,
        3 < polygon.len() <= usize::MAX,
        forall|i: int| 0 <= i < verdicts.len() ==> !verdicts[i],
        verdicts.len() >= attempt_budget(polygon.len() as int),
    ensures
        ClipState::start(polygon, pool_len).run(verdicts).phase == Phase::Stuck,
        ClipState::start(polygon, pool_len).run(verdicts).clipped.len() == 0,
{
    lemma_start_wf(polygon, pool_len);
    assert(attempt_budget(polygon.len() as int) >= 1) by (nonlinear_arith)
        requires
            polygon.len() > 3,
    ;
    lemma_no_ear_from(ClipState::start(polygon, pool_len), verdicts);
}

proof fn lemma_all_ears_from(state: ClipState, verdicts: Seq<bool>, cut: int)
    requires
        state.wf(),
        state.phase == Phase::Probing,
        state.polygon.len() <= usize::MAX,
        0 <= cut <= state.polygon.len() - 4,
        state.active == Seq::new((state.polygon.len() - cut) as nat, |i: int| (i + cut) as usize),
        state.cursor == 0,
        state.clipped == fan(state.polygon.len() as int).subrange(0, cut),
        forall|i: int| 0 <= i < verdicts.len() ==> verdicts[i],
        verdicts.len() >= state.polygon.len() - 3 - cut,
    ensures
        state.run(verdicts).phase == Phase::Complete,
        state.run(verdicts).clipped == fan(state.polygon.len() as int),
    decreases state.polygon.len() - cut,
{
    let n = state.polygon.len() as int;
    let next = state.step(verdicts.first());
    lemma_step_wf(state, verdicts.first());
    assert(verdicts.first());
    assert(state.candidate() =~= fan(n)[cut]);
    assert(state.active.remove(0) =~= Seq::new((n - cut - 1) as nat, |i: int| (i + cut + 1) as usize));
    if cut == n - 4 {
        assert(next.phase == Phase::Complete);
        let last = next.clipped[n - 3];
        assert(last =~= fan(n)[n - 3]);
        assert(next.clipped =~= fan(n));
        lemma_run_settled(next, verdicts.drop_first());
    } else {
        let more = cut + 1;
        assert(attempt_budget(n - more) >= 1) by (nonlinear_arith)
            requires
                n - more > 3,
        ;
        assert(next.clipped =~= fan(n).subrange(0, more));
        assert(next.active =~= Seq::new((n - more) as nat, |i: int| (i + more) as usize));
        lemma_all_ears_from(next, verdicts.drop_first(), more);
    }
}

/// Where every corner asked about is an ear, as in a convex polygon, the
/// polygon of n corners is cut into the fan of n - 2 triangles around its
/// last corner, after n - 3 verdicts.
pub proof fn lemma_all_ears_give_fan(polygon: Seq<usize>, pool_len: int, verdicts: Seq<bool>)
    requires
        polygon_fault(polygon, pool_len) is None,
        polygon.len() <= usize::MAX,
        forall|i: int| 0 <= i < verdicts.len() ==> verdicts[i],
        verdicts.len() >= polygon.len() - 3,
    ensures
        ClipState::start(polygon, pool_len).run(verdicts).phase == Phase::Complete,
        ClipState::start(polygon, pool_len).run(verdicts).clipped == fan(polygon.len() as int),
{
    let n = polygon.len() as int;
    let begin = ClipState::start(polygon, pool_len);
    lemma_start_wf(polygon, pool_len);
    if n == 3 {
        assert(begin.clipped[0] =~= fan(n)[0]);
        assert(begin.clipped =~= fan(n));
        lemma_run_settled(begin, verdicts);
    } else {
        assert(attempt_budget(n) >= 1) by (nonlinear_arith)
            requires
                n > 3,
        ;
        assert(begin.active =~= Seq::new((n - 0) as nat, |i: int| (i + 0) as usize));
        assert(begin.clipped =~= fan(n).subrange(0, 0));
        lemma_all_ears_from(begin, verdicts, 0);
    }
}

/// Taking one more verdict at the end of a run is one more step.
pub proof fn lemma_run_push(state: ClipState, verdicts: Seq<bool>, last: bool)
    ensures
        state.run(verdicts.push(last)) == state.run(verdicts).step(last),
    decreases verdicts.len(),
{
    let longer = verdicts.push(last);
    if verdicts.len() == 0 {
        assert(longer.drop_first() =~= Seq::<bool>::empty());
        assert(state.step(last).run(longer.drop_first()) == state.step(last));
    } else {
        assert(longer.drop_first() =~= verdicts.drop_first().push(last));
        lemma_run_push(state.step(verdicts.first()), verdicts.drop_first(), last);
    }
}

pub(crate) proof fn lemma_may_answer_push<C, I>(
    is_convex: C,
    is_inside: I,
    state: ClipState,
    verdicts: Seq<bool>,
    last: bool,
) where C: Fn([usize; 3]) -> bool, I: Fn([usize; 3], usize) -> bool
    requires
        may_answer_all(is_convex, is_inside, state, verdicts),
        state.run(verdicts).phase == Phase::Probing,
        may_answer(is_convex, is_inside, state.run(verdicts), last),
    ensures
        may_answer_all(is_convex, is_inside, state, verdicts.push(last)),
    decreases verdicts.len(),
{
    let longer = verdicts.push(last);
    assert(longer.len() > 0);
    if verdicts.len() == 0 {
        assert(longer.drop_first() =~= Seq::<bool>::empty());
        assert(longer.first() == last);
        assert(state.run(verdicts) == state);
        assert(may_answer_all(is_convex, is_inside, state.step(last), longer.drop_first()));
    } else {
        assert(longer.drop_first() =~= verdicts.drop_first().push(last));
        assert(longer.first() == verdicts.first());
        assert(state.run(verdicts) == state.step(verdicts.first()).run(verdicts.drop_first()));
        lemma_may_answer_push(
            is_convex,
            is_inside,
            state.step(verdicts.first()),
            verdicts.drop_first(),
            last,
        );
        assert(may_answer_all(
            is_convex,
            is_inside,
            state.step(longer.first()),
            longer.drop_first(),
        ));
    }
}

} // verus!
