//! What a cycle was told and asked for last, at every point of it.

use vstd::prelude::*;
use crate::cycle::{CycleActionView, CycleInputView, CycleState};
use crate::dialogue::{
    deletes, is_blob, is_done, is_member, is_opened, is_resume, is_tag, is_temp_tag, is_turn,
    is_unread, no_more_blobs, no_more_tags, opens, says,
};
use crate::digest::Digest;
use crate::event::{MarkEventView, SweepEventView};
use crate::history::{awaited, blobs_listed, cycle_run, opened, CycleRun};
use crate::mark::{GcMarkState, MarkActionView, MarkState};
use crate::sweep::{GcSweepState, SweepActionView, SweepState};
use crate::upkeep::{
    cycle_inv, lemma_contains_extended, lemma_cycle_inv, lemma_history, lemma_return,
    lemma_visit_opens, visit_opens,
};

verus! {

/// What a mark phase was told and asked for last.
pub open spec fn mark_posed<E>(
    mark: MarkState,
    inputs: Seq<CycleInputView<E>>,
    run: CycleRun<E>,
) -> bool {
    let n = inputs.len();
    let input = inputs.last();
    let action = run.actions.last();
    let roots = opened(run.actions);
    let current = |root: Digest| roots.len() > 0 && roots.last() == root;
    match mark {
        MarkState::TagsAnnounced => n == 2 && input is Cleared && says(action, "traversing tags"@),
        MarkState::TagsRequested => n == 3 && is_resume(input) && action
            == CycleActionView::<E>::Mark(MarkActionView::ListTags),
        MarkState::Tags(_) => n > 3 && (is_opened(input) || is_resume(input)) && action
            == CycleActionView::<E>::Mark(MarkActionView::NextTag),
        MarkState::TagAdded(_) => n > 3 && is_tag(input) && action
            matches CycleActionView::Mark(MarkActionView::Yield(MarkEventView::CustomDebug(_))),
        MarkState::TempTagsAnnounced(_) => n > 3 && no_more_tags(input) && says(
            action,
            "traversing temp roots"@,
        ),
        MarkState::TempTagsRequested(_) => n > 3 && is_resume(input) && action
            == CycleActionView::<E>::Mark(MarkActionView::ListTempTags),
        MarkState::TempTags(_) => n > 3 && (is_opened(input) || is_resume(input)) && action
            == CycleActionView::<E>::Mark(MarkActionView::NextTempTag),
        MarkState::TempTagAdded(_) => n > 3 && is_temp_tag(input) && action
            matches CycleActionView::Mark(MarkActionView::Yield(MarkEventView::CustomDebug(_))),
        MarkState::Opening(root, _) => n > 3 && is_turn(input) && opens(action) && current(root),
        MarkState::Children(root, _) => n > 3 && (is_resume(input) || is_member(input)) && current(
            root,
        ) && action == CycleActionView::<E>::Mark(MarkActionView::NextChild),
        MarkState::Warned(root, _) => n > 3 && is_unread(input) && current(root) && action
            matches CycleActionView::Mark(
            MarkActionView::Yield(MarkEventView::CustomWarning(_, _)),
        ),
        MarkState::Flagged(root, _) => n > 3 && is_resume(input) && current(root) && action
            == CycleActionView::<E>::Mark(
            MarkActionView::Yield(MarkEventView::TraversalIncomplete(root)),
        ),
        MarkState::Counted => n > 3 && is_turn(input) && action
            matches CycleActionView::Mark(MarkActionView::Yield(MarkEventView::CustomDebug(_))),
        _ => false,
    }
}

/// What a sweep phase was told and asked for last.
pub open spec fn sweep_posed<E>(
    sweep: SweepState,
    inputs: Seq<CycleInputView<E>>,
    run: CycleRun<E>,
) -> bool {
    let input = inputs.last();
    let action = run.actions.last();
    match sweep {
        SweepState::Requested => is_resume(input) && action == CycleActionView::<E>::Sweep(
            SweepActionView::ListBlobs,
        ) && !blobs_listed(inputs),
        SweepState::Blobs(_, _) => (is_done(input) || is_blob(input)) && action
            == CycleActionView::<E>::Sweep(SweepActionView::NextBlob) && !blobs_listed(inputs),
        SweepState::Deleting(_) => is_blob(input) && deletes(action) && !blobs_listed(inputs),
        SweepState::DeletingLast(_) => no_more_blobs(input) && deletes(action),
        SweepState::Syncing(_) => (is_done(input) || no_more_blobs(input)) && action
            == CycleActionView::<E>::Sweep(SweepActionView::SyncDb),
        SweepState::Counted => is_done(input) && action matches CycleActionView::Sweep(
            SweepActionView::Yield(SweepEventView::CustomDebug(_)),
        ),
        _ => false,
    }
}

/// What was not asked for yet.
pub open spec fn unasked<E>(
    state: CycleState,
    inputs: Seq<CycleInputView<E>>,
    actions: Seq<CycleActionView<E>>,
) -> bool {
    let temp_tags = actions.contains(CycleActionView::Mark(MarkActionView::ListTempTags));
    let sync = actions.contains(CycleActionView::Sweep(SweepActionView::SyncDb));
    match state {
        CycleState::Start | CycleState::Clearing => !temp_tags && !sync && !blobs_listed(inputs),
        CycleState::Marking(GcMarkState::Running(mark), _) => !sync && !blobs_listed(inputs)
            && match mark {
            MarkState::TagsAnnounced
            | MarkState::TagsRequested
            | MarkState::Tags(_)
            | MarkState::TagAdded(_)
            | MarkState::TempTagsAnnounced(_) => !temp_tags,
            _ => true,
        },
        CycleState::Sweeping(GcSweepState::Running(sweep)) => match sweep {
            SweepState::Requested
            | SweepState::Blobs(_, _)
            | SweepState::Deleting(_)
            | SweepState::DeletingLast(_) => !sync,
            _ => true,
        },
        _ => true,
    }
}

/// Where a cycle stands tells what it was told and asked for last.
pub open spec fn posed<E>(inputs: Seq<CycleInputView<E>>, run: CycleRun<E>) -> bool {
    let n = inputs.len();
    &&& unasked(run.state, inputs, run.actions)
    &&& match run.state {
        CycleState::Start => n == 0,
        CycleState::Clearing => n == 1 && inputs.last() is Begin && run.actions.last()
            is ClearProtected,
        CycleState::Marking(GcMarkState::Running(mark), _) => mark_posed(mark, inputs, run),
        CycleState::Sweeping(GcSweepState::Running(sweep)) => n > 3 && sweep_posed(
            sweep,
            inputs,
            run,
        ),
        CycleState::Over => n > 1 && run.actions.last() is Return,
        _ => false,
    }
}

/// That holds at every point of a cycle.
pub proof fn lemma_posed<E>(first: Set<Digest>, inputs: Seq<CycleInputView<E>>)
    requires
        awaited(first, inputs),
    ensures
        posed(inputs, cycle_run(first, inputs)),
        cycle_run(first, inputs).actions.len() == inputs.len(),
    decreases inputs.len(),
{
    lemma_cycle_inv(first, inputs);
    if inputs.len() > 0 {
        let before = inputs.drop_last();
        lemma_cycle_inv(first, before);
        lemma_posed(first, before);
        lemma_history(first, inputs);
        lemma_return(first, inputs);
        let run = cycle_run(first, before);
        let after = cycle_run(first, inputs);
        lemma_contains_extended(run.actions, after.actions.last());
        assert(after.actions =~= run.actions + seq![after.actions.last()]);
        match run.state {
            CycleState::Marking(GcMarkState::Running(mark), _) => match mark {
                MarkState::TempTags(rest) => lemma_visit_opens::<E>(run.live, rest),
                MarkState::Children(_, rest) => lemma_visit_opens::<E>(run.live, rest),
                _ => {},
            },
            _ => {},
        }
    }
}

/// What holds before and after the last input of a cycle.
pub proof fn lemma_turn<E>(first: Set<Digest>, inputs: Seq<CycleInputView<E>>)
    requires
        awaited(first, inputs),
        inputs.len() > 0,
    ensures
        ({
            let before = inputs.drop_last();
            let run = cycle_run(first, before);
            let after = cycle_run(first, inputs);
            &&& cycle_inv(first, before)
            &&& cycle_inv(first, inputs)
            &&& posed(before, run)
            &&& posed(inputs, after)
            &&& run.actions.len() == before.len()
            &&& after.actions.len() == inputs.len()
            &&& after.actions == run.actions.push(after.actions.last())
            &&& run.state.accepts(inputs.last())
            &&& run.state matches CycleState::Marking(
                GcMarkState::Running(MarkState::TempTags(rest)),
                _,
            ) ==> visit_opens::<E>(run.live, rest)
            &&& run.state matches CycleState::Marking(
                GcMarkState::Running(MarkState::Children(_, rest)),
                _,
            ) ==> visit_opens::<E>(run.live, rest)
        }),
{
    let before = inputs.drop_last();
    lemma_cycle_inv(first, before);
    lemma_cycle_inv(first, inputs);
    lemma_posed(first, before);
    lemma_posed(first, inputs);
    lemma_history(first, inputs);
    let run = cycle_run(first, before);
    match run.state {
        CycleState::Marking(GcMarkState::Running(mark), _) => match mark {
            MarkState::TempTags(rest) => lemma_visit_opens::<E>(run.live, rest),
            MarkState::Children(_, rest) => lemma_visit_opens::<E>(run.live, rest),
            _ => {},
        },
        _ => {},
    }
}

/// The beginning of a history is a history, with the same actions.
pub proof fn lemma_prefix<E>(first: Set<Digest>, inputs: Seq<CycleInputView<E>>, n: int)
    requires
        awaited(first, inputs),
        0 <= n <= inputs.len(),
    ensures
        awaited(first, inputs.take(n)),
        cycle_run(first, inputs.take(n)).actions == cycle_run(first, inputs).actions.take(n),
        cycle_run(first, inputs).actions.len() == inputs.len(),
    decreases inputs.len(),
{
    lemma_cycle_inv(first, inputs);
    if n == inputs.len() {
        assert(inputs.take(n) =~= inputs);
    } else {
        let before = inputs.drop_last();
        lemma_prefix(first, before, n);
        lemma_history(first, inputs);
        assert(before.take(n) =~= inputs.take(n));
    }
}

} // verus!
