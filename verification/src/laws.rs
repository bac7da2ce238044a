//! What every collection cycle and every schedule keeps to, whatever the store answers.

use std::time::Duration;
use vstd::prelude::*;
use crate::cycle::{CycleActionView, CycleInputView, CycleState};
use crate::digest::{Digest, HashAndFormat};
use crate::event::MarkEventView;
use crate::history::{
    as_collection, awaited, batch_of, batches, blobs_listed, claim_of, claimed, claims, cycle_run,
    dead, each_opened_once, ends, failure_of, incomplete, listed, marked, members, opened, packed,
    tags_listed, temp_tags_listed, unreadable, unswept,
};
use crate::mark::{mark_step, visit, GcMarkState, MarkActionView, MarkInputView, MarkState};
use crate::schedule::{
    schedule_step, ProtectOutcome, ScheduleAction, ScheduleInput, ScheduleState, ScheduleStep,
};
use crate::sweep::{deleted_note, SweepActionView};
use crate::upkeep::{
    lemma_contains_extended, lemma_cycle_inv, lemma_deletions_are_dead, lemma_history,
    lemma_marked, lemma_return, lemma_visit_opens, mark_inv, seen,
};

verus! {

/// Whether a cycle has come to its end and reported no failure.
pub open spec fn succeeded<E>(first: Set<Digest>, inputs: Seq<CycleInputView<E>>) -> bool {
    &&& awaited(first, inputs)
    &&& inputs.len() > 0
    &&& cycle_run(first, inputs).actions.last() == CycleActionView::<E>::Return(Ok(()))
}

proof fn lemma_batch_among<E>(actions: Seq<CycleActionView<E>>, k: int, batch: Seq<Digest>)
    requires
        0 <= k < actions.len(),
        batch_of(actions[k]) == Some(batch),
    ensures
        batches(actions).contains(batch),
    decreases actions.len(),
{
    let rest = actions.drop_last();
    if k == rest.len() {
        assert(batches(actions) == batches(rest) + seq![batch]);
        assert(batches(actions)[batches(rest).len() as int] == batch);
    } else {
        lemma_batch_among(rest, k, batch);
        let i = choose|i: int| 0 <= i < batches(rest).len() && batches(rest)[i] == batch;
        assert(batches(actions)[i] == batch);
    }
}

proof fn lemma_in_flat(batches: Seq<Seq<Digest>>, i: int, hash: Digest)
    requires
        0 <= i < batches.len(),
        batches[i].contains(hash),
    ensures
        batches.flatten().contains(hash),
    decreases batches.len(),
{
    let rest = batches.drop_last();
    let last = batches.last();
    assert(batches =~= rest.push(last));
    rest.lemma_flatten_push(last);
    let flat = rest.flatten() + last;
    if i == rest.len() {
        let j = choose|j: int| 0 <= j < last.len() && last[j] == hash;
        assert(flat[rest.flatten().len() + j] == hash);
    } else {
        lemma_in_flat(rest, i, hash);
        let j = choose|j: int| 0 <= j < rest.flatten().len() && rest.flatten()[j] == hash;
        assert(flat[j] == hash);
    }
}

/// A cycle never asks for the deletion of a blob that was live before it began, that a tag or a
/// temporary tag claims, or that a claimed collection names; and only for that of listed blobs.
pub proof fn law_protected_blobs_are_spared<E>(
    first: Set<Digest>,
    inputs: Seq<CycleInputView<E>>,
    k: int,
    batch: Seq<Digest>,
    hash: Digest,
)
    requires
        awaited(first, inputs),
        0 <= k < cycle_run(first, inputs).actions.len(),
        batch_of(cycle_run(first, inputs).actions[k]) == Some(batch),
        batch.contains(hash),
    ensures
        !first.contains(hash),
        !claimed(claims(inputs), hash),
        !members(inputs).contains(hash),
        listed(inputs).contains(hash),
{
    lemma_cycle_inv(first, inputs);
    let run = cycle_run(first, inputs);
    let deletions = batches(run.actions);
    let chosen = dead(listed(inputs), run.live);
    lemma_batch_among(run.actions, k, batch);
    let i = choose|i: int| 0 <= i < deletions.len() && deletions[i] == batch;
    lemma_in_flat(deletions, i, hash);
    lemma_deletions_are_dead(first, inputs);
    let j = choose|j: int| 0 <= j < deletions.flatten().len() && deletions.flatten()[j] == hash;
    assert(chosen[j] == hash);
    assert(chosen.contains(hash));
    listed(inputs).lemma_filter_contains_rev(|hash: Digest| !run.live.contains(hash), hash);
    listed(inputs).lemma_filter_pred(|hash: Digest| !run.live.contains(hash), j);
    lemma_marked(seen(first, inputs, true));
    assert(!run.live.contains(hash));
}

/// Once a member of a claimed collection could not be read, the cycle asks for nothing on behalf
/// of a sweep: it lists no blob and deletes none.
pub proof fn law_incomplete_mark_withholds_the_sweep<E>(
    first: Set<Digest>,
    inputs: Seq<CycleInputView<E>>,
)
    requires
        awaited(first, inputs),
        unreadable(inputs),
    ensures
        unswept(cycle_run(first, inputs).actions),
        batches(cycle_run(first, inputs).actions).len() == 0,
{
    lemma_cycle_inv(first, inputs);
}

/// A sweep begins only when the mark is complete: the tags and the temporary tags were listed to
/// their end, each digest that is claimed as a collection was opened and read to its end, no
/// member was unreadable, and all that was found is live.
pub proof fn law_sweep_waits_for_the_mark<E>(first: Set<Digest>, inputs: Seq<CycleInputView<E>>)
    requires
        awaited(first, inputs),
        !unswept(cycle_run(first, inputs).actions),
    ensures
        tags_listed(inputs),
        temp_tags_listed(inputs),
        each_opened_once(claims(inputs), opened(cycle_run(first, inputs).actions)),
        ends(inputs).len() == opened(cycle_run(first, inputs).actions).len(),
        !unreadable(inputs),
        marked(first, cycle_run(first, inputs).live, claims(inputs), members(inputs)),
{
    lemma_cycle_inv(first, inputs);
    lemma_marked(seen(first, inputs, true));
}

/// After a successful cycle the tags and the temporary tags were listed to their end, and each
/// traversal that was opened was read to its end, whatever could be read of it.
pub proof fn law_mark_reads_everything<E>(first: Set<Digest>, inputs: Seq<CycleInputView<E>>)
    requires
        succeeded(first, inputs),
    ensures
        tags_listed(inputs),
        temp_tags_listed(inputs),
        ends(inputs).len() == opened(cycle_run(first, inputs).actions).len(),
{
    lemma_cycle_inv(first, inputs);
}

/// After a successful cycle the live set holds what it held at first, every claimed digest, and
/// every member that was read of a claimed collection: nothing else, and none is missing.
pub proof fn law_live_set_is_exact<E>(first: Set<Digest>, inputs: Seq<CycleInputView<E>>)
    requires
        succeeded(first, inputs),
    ensures
        marked(first, cycle_run(first, inputs).live, claims(inputs), members(inputs)),
{
    lemma_cycle_inv(first, inputs);
    lemma_marked(seen(first, inputs, true));
}

/// A successful cycle has opened each digest that is claimed as a collection once, and no other:
/// it matters neither whether the digest was live already nor whether it is claimed raw as well.
pub proof fn law_every_collection_is_traversed<E>(
    first: Set<Digest>,
    inputs: Seq<CycleInputView<E>>,
)
    requires
        succeeded(first, inputs),
    ensures
        each_opened_once(claims(inputs), opened(cycle_run(first, inputs).actions)),
{
    lemma_cycle_inv(first, inputs);
    lemma_marked(seen(first, inputs, true));
}

/// Which roots are walked, and how, does not depend on what is live already.
pub proof fn law_walk_ignores_liveness<E>(
    live: Set<Digest>,
    other: Set<Digest>,
    rest: Seq<HashAndFormat>,
)
    ensures
        visit::<E>(live, rest).state == visit::<E>(other, rest).state,
        visit::<E>(live, rest).state is Opening ==> visit::<E>(live, rest).action == visit::<E>(
            other,
            rest,
        ).action,
    decreases rest.len(),
{
    if rest.len() > 0 {
        let hash = rest.last().hash;
        law_walk_ignores_liveness::<E>(live.insert(hash), other.insert(hash), rest.drop_last());
    }
}

/// Whenever a cycle opens a traversal, it is over all chunks, of a digest that is claimed as a
/// collection.
pub proof fn law_traversals_are_whole<E>(
    first: Set<Digest>,
    inputs: Seq<CycleInputView<E>>,
    k: int,
    root: Digest,
    chunks: Set<u64>,
)
    requires
        awaited(first, inputs),
        0 <= k < cycle_run(first, inputs).actions.len(),
        cycle_run(first, inputs).actions[k] == CycleActionView::<E>::Mark(
            MarkActionView::OpenChildren(root, chunks),
        ),
    ensures
        chunks == Set::<u64>::full(),
        claims(inputs).contains(as_collection(root)),
    decreases inputs.len(),
{
    let before = inputs.drop_last();
    lemma_cycle_inv(first, inputs);
    lemma_cycle_inv(first, before);
    lemma_history(first, inputs);
    let run = cycle_run(first, before);
    if k < run.actions.len() {
        law_traversals_are_whole(first, before, k, root, chunks);
        match claim_of(inputs.last()) {
            Some(claim) => lemma_contains_extended(claims(before), claim),
            None => {},
        }
    } else {
        match run.state {
            CycleState::Marking(GcMarkState::Running(mark), _) => {
                match mark {
                    MarkState::TempTags(rest) => lemma_visit_opens::<E>(run.live, rest),
                    MarkState::Children(_, rest) => lemma_visit_opens::<E>(run.live, rest),
                    _ => {},
                }
                lemma_contains_extended(opened(run.actions), root);
                assert(opened(cycle_run(first, inputs).actions).contains(root));
            },
            _ => {},
        }
    }
}

/// A successful cycle that could read every member has listed the blobs to their end and deleted
/// those that are not live, all of them, in the order of the listing. Then it made that durable,
/// reported their number, and ended.
pub proof fn law_sweep_deletes_exactly_the_dead<E>(
    first: Set<Digest>,
    inputs: Seq<CycleInputView<E>>,
)
    requires
        succeeded(first, inputs),
        !unreadable(inputs),
    ensures
        ({
            let run = cycle_run(first, inputs);
            let chosen = dead(listed(inputs), run.live);
            let n = run.actions.len();
            &&& blobs_listed(inputs)
            &&& batches(run.actions).flatten() == chosen
            &&& n >= 3
            &&& run.actions[n - 3] == CycleActionView::<E>::Sweep(SweepActionView::SyncDb)
            &&& run.actions[n - 2] == CycleActionView::<E>::Sweep(deleted_note(chosen.len() as u64))
        }),
{
    lemma_cycle_inv(first, inputs);
}

/// At every point of a cycle, each batch of deletions is neither empty nor too large, and all but
/// the last are full.
pub proof fn law_batches_are_packed<E>(first: Set<Digest>, inputs: Seq<CycleInputView<E>>)
    requires
        awaited(first, inputs),
    ensures
        packed(batches(cycle_run(first, inputs).actions)),
{
    lemma_cycle_inv(first, inputs);
    lemma_deletions_are_dead(first, inputs);
}

proof fn lemma_filter_no_duplicates(s: Seq<Digest>, pred: spec_fn(Digest) -> bool)
    requires
        s.no_duplicates(),
    ensures
        s.filter(pred).no_duplicates(),
    decreases s.len(),
{
    reveal(Seq::filter);
    if s.len() > 0 {
        let rest = s.drop_last();
        lemma_filter_no_duplicates(rest, pred);
        if rest.filter(pred).contains(s.last()) {
            rest.lemma_filter_contains_rev(pred, s.last());
        }
    }
}

/// A store that lists no blob twice is asked to delete no blob twice.
pub proof fn law_nothing_is_deleted_twice<E>(first: Set<Digest>, inputs: Seq<CycleInputView<E>>)
    requires
        awaited(first, inputs),
        listed(inputs).no_duplicates(),
    ensures
        batches(cycle_run(first, inputs).actions).flatten().no_duplicates(),
{
    lemma_cycle_inv(first, inputs);
    lemma_deletions_are_dead(first, inputs);
    let run = cycle_run(first, inputs);
    lemma_filter_no_duplicates(
        listed(inputs),
        |hash: Digest| !run.live.contains(hash),
    );
}

/// The first failure of the store ends the cycle and is its result, and a cycle has no other
/// failure.
pub proof fn law_failure_ends_the_cycle<E>(
    first: Set<Digest>,
    inputs: Seq<CycleInputView<E>>,
    error: E,
)
    requires
        awaited(first, inputs),
        inputs.len() > 0,
    ensures
        failure_of(inputs.last()) == Some(error) <==> cycle_run(first, inputs).actions.last()
            == CycleActionView::<E>::Return(Err(error)),
        cycle_run(first, inputs).actions.last() is Return <==> cycle_run(first, inputs).state
            is Over,
{
    lemma_cycle_inv(first, inputs);
    lemma_return(first, inputs);
}

/// A cycle that is over awaits nothing more.
pub proof fn law_ended_cycle_awaits_nothing<E>(
    first: Set<Digest>,
    inputs: Seq<CycleInputView<E>>,
    next: CycleInputView<E>,
)
    requires
        inputs.len() > 0,
        cycle_run(first, inputs).actions.last() is Return,
    ensures
        !awaited(first, inputs.push(next)),
{
    assert(inputs.push(next).drop_last() =~= inputs);
    if awaited(first, inputs) {
        lemma_cycle_inv(first, inputs);
        lemma_return(first, inputs);
    }
}

/// A cycle takes nothing out of the live set. One that fails before its sweep leaves it as it was.
pub proof fn law_live_set_only_grows<E>(first: Set<Digest>, inputs: Seq<CycleInputView<E>>)
    requires
        awaited(first, inputs),
    ensures
        first.subset_of(cycle_run(first, inputs).live),
        inputs.len() > 0 && failure_of(inputs.last()) is Some && unswept(
            cycle_run(first, inputs).actions,
        ) ==> cycle_run(first, inputs).live == first,
{
    lemma_cycle_inv(first, inputs);
    if inputs.len() > 0 {
        lemma_return(first, inputs);
    }
    let run = cycle_run(first, inputs);
    assert forall|hash: Digest| first.contains(hash) implies run.live.contains(hash) by {
        match run.state {
            CycleState::Marking(GcMarkState::Running(mark), safe) => {
                assert(mark_inv(mark, seen(first, inputs, safe)));
                assert(seen(first, inputs, safe).live.contains(hash));
            },
            _ => {
                assert(seen(first, inputs, true).live == run.live);
            },
        }
    }
}

/// The protected set of the store is cleared first, before anything is listed, and not again.
pub proof fn law_protection_is_cleared_first<E>(
    first: Set<Digest>,
    inputs: Seq<CycleInputView<E>>,
    k: int,
)
    requires
        awaited(first, inputs),
        0 <= k < inputs.len(),
    ensures
        cycle_run(first, inputs).actions.len() == inputs.len(),
        cycle_run(first, inputs).actions[k] is ClearProtected <==> k == 0,
    decreases inputs.len(),
{
    let before = inputs.drop_last();
    lemma_cycle_inv(first, inputs);
    lemma_cycle_inv(first, before);
    lemma_history(first, inputs);
    if k < before.len() {
        law_protection_is_cleared_first(first, before, k);
    }
}

/// What a successful cycle marks does not depend on the order in which the store lists its tags
/// and the members of its collections, nor on how often it lists them.
pub proof fn law_order_does_not_matter<E>(
    first: Set<Digest>,
    inputs: Seq<CycleInputView<E>>,
    others: Seq<CycleInputView<E>>,
)
    requires
        succeeded(first, inputs),
        succeeded(first, others),
        claims(inputs).to_set() == claims(others).to_set(),
        members(inputs).to_set() == members(others).to_set(),
    ensures
        cycle_run(first, inputs).live == cycle_run(first, others).live,
        opened(cycle_run(first, inputs).actions).to_set() == opened(
            cycle_run(first, others).actions,
        ).to_set(),
{
    law_live_set_is_exact(first, inputs);
    law_live_set_is_exact(first, others);
    law_every_collection_is_traversed(first, inputs);
    law_every_collection_is_traversed(first, others);
    let live = cycle_run(first, inputs).live;
    let other = cycle_run(first, others).live;
    assert forall|c: HashAndFormat| claims(inputs).contains(c) == claims(others).contains(c) by {
        assert(claims(inputs).to_set().contains(c) == claims(inputs).contains(c));
        assert(claims(others).to_set().contains(c) == claims(others).contains(c));
    }
    assert forall|hash: Digest| claimed(claims(inputs), hash) == claimed(claims(others), hash) by {
        lemma_claimed(claims(inputs), claims(others), hash);
        lemma_claimed(claims(others), claims(inputs), hash);
    }
    assert forall|hash: Digest| live.contains(hash) == other.contains(hash) by {
        assert(members(inputs).to_set().contains(hash) == members(inputs).contains(hash));
        assert(members(others).to_set().contains(hash) == members(others).contains(hash));
    }
    assert(live =~= other);
    let opens = opened(cycle_run(first, inputs).actions);
    let other_opens = opened(cycle_run(first, others).actions);
    assert forall|hash: Digest| opens.to_set().contains(hash) == other_opens.to_set().contains(
        hash,
    ) by {
        assert(opens.contains(hash) == other_opens.contains(hash));
    }
    assert(opens.to_set() =~= other_opens.to_set());
}

proof fn lemma_claimed(claims: Seq<HashAndFormat>, others: Seq<HashAndFormat>, hash: Digest)
    requires
        forall|c: HashAndFormat| claims.contains(c) == others.contains(c),
    ensures
        claimed(claims, hash) ==> claimed(others, hash),
{
    if claimed(claims, hash) {
        let i = choose|i: int| 0 <= i < claims.len() && (#[trigger] claims[i]).hash == hash;
        assert(claims.contains(claims[i]));
        let j = choose|j: int| 0 <= j < others.len() && others[j] == claims[i];
        assert(others[j].hash == hash);
    }
}

/// A member that could not be read is reported twice: as a warning, and then as the incomplete
/// traversal of its collection. The traversal goes on after that.
pub proof fn law_unreadable_member_is_reported<E>(
    live: Set<Digest>,
    root: Digest,
    rest: Seq<HashAndFormat>,
    why: Seq<char>,
)
    ensures
        ({
            let warned = mark_step(
                MarkState::Children(root, rest),
                live,
                MarkInputView::<E>::Child(Some(Err(why))),
            );
            let flagged = mark_step(warned.state, warned.live, MarkInputView::<E>::Resume);
            let resumed = mark_step(flagged.state, flagged.live, MarkInputView::<E>::Resume);
            &&& warned.action == MarkActionView::<E>::Yield(
                MarkEventView::CustomWarning("error while traversing hashseq: "@ + why, None),
            )
            &&& flagged.action == MarkActionView::<E>::Yield(
                MarkEventView::TraversalIncomplete(root),
            )
            &&& resumed.action == MarkActionView::<E>::NextChild
            &&& resumed.state == MarkState::Children(root, rest)
            &&& resumed.live == live
        }),
{
}

/// A successful cycle has reported an incomplete traversal if and only if some member of a claimed
/// collection could not be read.
pub proof fn law_incomplete_traversals_are_reported<E>(
    first: Set<Digest>,
    inputs: Seq<CycleInputView<E>>,
)
    requires
        succeeded(first, inputs),
    ensures
        incomplete(cycle_run(first, inputs).actions) <==> unreadable(inputs),
{
    lemma_cycle_inv(first, inputs);
}

/// Whether an input answers an action.
pub open spec fn answers<E>(action: CycleActionView<E>, input: CycleInputView<E>) -> bool {
    match action {
        CycleActionView::ClearProtected => input is Cleared,
        CycleActionView::Mark(action) => match input {
            CycleInputView::Mark(input) => match action {
                MarkActionView::Yield(_) | MarkActionView::OpenChildren(_, _) => input is Resume,
                MarkActionView::ListTags | MarkActionView::ListTempTags => input is Listed,
                MarkActionView::NextTag => input is Tag,
                MarkActionView::NextTempTag => input is TempTag,
                MarkActionView::NextChild => input is Child,
                MarkActionView::Return(_) => false,
            },
            _ => false,
        },
        CycleActionView::Sweep(action) => match input {
            CycleInputView::Sweep(input) => match action {
                SweepActionView::Yield(_) => input is Resume,
                SweepActionView::ListBlobs
                | SweepActionView::Delete(_)
                | SweepActionView::SyncDb => input is Done,
                SweepActionView::NextBlob => input is Blob,
                SweepActionView::Return(_) => false,
            },
            _ => false,
        },
        CycleActionView::Return(_) => false,
    }
}

/// Whatever answers the last action of a cycle is what the cycle awaits, as long as fewer blobs
/// were listed than can be counted.
pub proof fn law_every_answer_is_awaited<E>(
    first: Set<Digest>,
    inputs: Seq<CycleInputView<E>>,
    next: CycleInputView<E>,
)
    requires
        awaited(first, inputs),
        inputs.len() > 0,
        answers(cycle_run(first, inputs).actions.last(), next),
        listed(inputs).len() < u64::MAX,
    ensures
        awaited(first, inputs.push(next)),
{
    assert(inputs.push(next).drop_last() =~= inputs);
    let before = inputs.drop_last();
    lemma_cycle_inv(first, inputs);
    lemma_cycle_inv(first, before);
    lemma_history(first, inputs);
    let run = cycle_run(first, before);
    match run.state {
        CycleState::Marking(GcMarkState::Running(mark), _) => match mark {
            MarkState::TempTags(rest) => lemma_visit_opens::<E>(run.live, rest),
            MarkState::Children(_, rest) => lemma_visit_opens::<E>(run.live, rest),
            _ => {},
        },
        _ => {},
    }
    let live = cycle_run(first, inputs).live;
    listed(inputs).lemma_filter_len(|hash: Digest| !live.contains(hash));
}

/// What a schedule does with its inputs, the live set being `lives[k]` when the input `k` came.
pub open spec fn schedule_steps<E>(
    interval: Duration,
    protects: bool,
    lives: Seq<Set<Digest>>,
    inputs: Seq<ScheduleInput<E>>,
) -> Seq<ScheduleStep<E>> {
    Seq::new(inputs.len(), |k: int| schedule_step(interval, protects, lives[k], inputs[k]))
}

/// Whether each input of a schedule was awaited when it came.
pub open spec fn schedule_awaited<E>(
    steps: Seq<ScheduleStep<E>>,
    inputs: Seq<ScheduleInput<E>>,
) -> bool {
    &&& inputs.len() > 0 ==> ScheduleState::Start.accepts(inputs[0])
    &&& forall|j: int, k: int|
        #![trigger steps[j], inputs[k]]
        0 <= j < k < inputs.len() && k == j + 1 ==> steps[j].state.accepts(inputs[k])
}

/// Every cycle comes after an interval that began with an empty live set; and where there is a
/// callback, after that callback agreed to it. The schedule leaves the live set to the cycle as
/// the callback left it.
pub proof fn law_cycles_are_announced<E>(
    interval: Duration,
    protects: bool,
    lives: Seq<Set<Digest>>,
    inputs: Seq<ScheduleInput<E>>,
    k: int,
)
    requires
        schedule_awaited(schedule_steps(interval, protects, lives, inputs), inputs),
        0 <= k < inputs.len(),
        schedule_steps(interval, protects, lives, inputs)[k].action is Cycle,
    ensures
        ({
            let steps = schedule_steps(interval, protects, lives, inputs);
            let woken = if protects {
                k - 1
            } else {
                k
            };
            &&& 1 <= woken
            &&& inputs[woken] is Slept
            &&& steps[woken - 1].action == ScheduleAction::<E>::Sleep(interval)
            &&& steps[woken - 1].live == Set::<Digest>::empty()
            &&& protects ==> {
                &&& inputs[k] == ScheduleInput::<E>::Protected(ProtectOutcome::Continue)
                &&& steps[woken].action is Protect
                &&& steps[woken].live == lives[woken]
            }
            &&& steps[k].live == lives[k]
        }),
{
    let steps = schedule_steps(interval, protects, lives, inputs);
    assert(inputs[k] is Slept || inputs[k] is Protected);
    assert(k > 0);
    assert(steps[k - 1].state.accepts(inputs[k]));
    if inputs[k] is Protected {
        assert(inputs[k - 1] is Slept);
        assert(k > 1);
        assert(steps[k - 2].state.accepts(inputs[k - 1]));
    }
}

/// A callback that aborts the round is followed by the next interval, with an empty live set, and
/// not by a cycle.
pub proof fn law_abort_skips_the_cycle<E>(interval: Duration, protects: bool, live: Set<Digest>)
    ensures
        ({
            let step = schedule_step(
                interval,
                protects,
                live,
                ScheduleInput::<E>::Protected(ProtectOutcome::Abort),
            );
            &&& step.action == ScheduleAction::<E>::Sleep(interval)
            &&& step.live == Set::<Digest>::empty()
            &&& step.state == ScheduleState::Sleeping
        }),
{
}

/// A schedule stops when a cycle has failed, with the error of that cycle, and only then; after
/// that it awaits nothing more.
pub proof fn law_schedule_stops_on_failure<E>(
    interval: Duration,
    protects: bool,
    lives: Seq<Set<Digest>>,
    inputs: Seq<ScheduleInput<E>>,
    k: int,
    error: E,
)
    requires
        schedule_awaited(schedule_steps(interval, protects, lives, inputs), inputs),
        0 <= k < inputs.len(),
    ensures
        schedule_steps(interval, protects, lives, inputs)[k].action == ScheduleAction::Stop(error)
            <==> inputs[k] == ScheduleInput::Cycled(Err(error)),
        inputs[k] == ScheduleInput::Cycled(Err(error)) ==> k == inputs.len() - 1,
{
    let steps = schedule_steps(interval, protects, lives, inputs);
    if k < inputs.len() - 1 {
        assert(steps[k].state.accepts(inputs[k + 1]));
    }
}

} // verus!
