//! What the calls of the phases, of their streams and of the cycle have to do with each other.

use vstd::prelude::*;
use crate::cycle::{CycleAction, CycleInput, CycleInputView, CycleState, GcRunOnce};
use crate::digest::{Digest, HashAndFormat};
use crate::event::{MarkEventView, SweepEventView};
use crate::history::{awaited, cycle_run, mark_failure, sweep_failure};
use crate::mark::{
    visit, GcMark, GcMarkState, MarkAction, MarkActionView, MarkInput, MarkInputView, MarkState,
    MarkTask,
};
use crate::set::DigestSet;
use crate::sweep::{
    GcSweep, GcSweepState, SweepAction, SweepActionView, SweepInput, SweepState, SweepTask,
};
use crate::upkeep::{lemma_visit_opens, visit_opens};

verus! {

/// Whether an input answers an action of the mark phase.
pub open spec fn mark_replies<E>(action: MarkActionView<E>, input: MarkInputView<E>) -> bool {
    match action {
        MarkActionView::Yield(_) | MarkActionView::OpenChildren(_, _) => input is Resume,
        MarkActionView::ListTags | MarkActionView::ListTempTags => input is Listed,
        MarkActionView::NextTag => input is Tag,
        MarkActionView::NextTempTag => input is TempTag,
        MarkActionView::NextChild => input is Child,
        MarkActionView::Return(_) => false,
    }
}

/// Whether an input answers an action of the sweep phase.
pub open spec fn sweep_replies<E>(action: SweepActionView<E>, input: SweepInput<E>) -> bool {
    match action {
        SweepActionView::Yield(_) => input is Resume,
        SweepActionView::ListBlobs
        | SweepActionView::Delete(_)
        | SweepActionView::SyncDb => input is Done,
        SweepActionView::NextBlob => input is Blob,
        SweepActionView::Return(_) => false,
    }
}

proof fn lemma_visits<E>(state: MarkState, live: Set<Digest>)
    ensures
        state matches MarkState::TempTags(rest) ==> visit_opens::<E>(live, rest),
        state matches MarkState::Children(_, rest) ==> visit_opens::<E>(live, rest),
{
    match state {
        MarkState::TempTags(rest) => lemma_visit_opens::<E>(live, rest),
        MarkState::Children(_, rest) => lemma_visit_opens::<E>(live, rest),
        _ => {},
    }
}

/// A new mark phase awaits to go on, and nothing else; it then announces the tags and leaves the
/// live set alone.
pub proof fn law_mark_begins_with_the_tags<E>(
    task: &mut MarkTask,
    live: &mut DigestSet,
    input: MarkInput<E>,
    yes: bool,
    action: MarkAction<E>,
)
    requires
        call_ensures(MarkTask::new, (), *old(task)),
        call_ensures(MarkTask::accepts::<E>, (&*old(task), &input), yes),
        call_ensures(MarkTask::step::<E>, (task, live, input), action),
    ensures
        yes <==> input@ is Resume,
        action@ == MarkActionView::<E>::Yield(MarkEventView::CustomDebug("traversing tags"@)),
        final(live)@ == old(live)@,
{
}

/// After each step the mark phase awaits what answers its action, and nothing else.
pub proof fn law_mark_awaits_the_answer<E>(
    task: &mut MarkTask,
    live: &mut DigestSet,
    input: MarkInput<E>,
    action: MarkAction<E>,
    next: MarkInput<E>,
    yes: bool,
)
    requires
        call_ensures(MarkTask::accepts::<E>, (&*old(task), &input), true),
        call_ensures(MarkTask::step::<E>, (task, live, input), action),
        call_ensures(MarkTask::accepts::<E>, (&*final(task), &next), yes),
    ensures
        yes <==> mark_replies(action@, next@),
{
    lemma_visits::<E>(old(task)@, old(live)@);
}

/// A failure of the store ends the mark phase and is its result, and the phase has no other
/// failure. A failure leaves the live set alone. The phase does not report failures itself.
pub proof fn law_mark_fails_with_the_store<E>(
    task: &mut MarkTask,
    live: &mut DigestSet,
    input: MarkInput<E>,
    action: MarkAction<E>,
    error: E,
)
    requires
        call_ensures(MarkTask::accepts::<E>, (&*old(task), &input), true),
        call_ensures(MarkTask::step::<E>, (task, live, input), action),
    ensures
        action@ == MarkActionView::<E>::Return(Err(error)) <==> mark_failure(input@) == Some(error),
        mark_failure(input@) == Some(error) ==> final(live)@ == old(live)@,
        action@ != MarkActionView::<E>::Yield(MarkEventView::Error(error)),
{
    lemma_visits::<E>(old(task)@, old(live)@);
}

/// The stream does what its phase does, but for a failure, which it reports.
pub proof fn law_mark_stream_carries_the_phase<E>(
    stream: &mut GcMark,
    streamed: &mut DigestSet,
    event: MarkAction<E>,
    task: &mut MarkTask,
    live: &mut DigestSet,
    action: MarkAction<E>,
    input: MarkInput<E>,
    next: MarkInput<E>,
    stream_yes: bool,
    yes: bool,
)
    requires
        old(stream)@ == GcMarkState::Running(old(task)@),
        old(streamed)@ == old(live)@,
        call_ensures(MarkTask::accepts::<E>, (&*old(task), &input), true),
        call_ensures(GcMark::step::<E>, (stream, streamed, input), event),
        call_ensures(MarkTask::step::<E>, (task, live, input), action),
        call_ensures(GcMark::accepts::<E>, (&*final(stream), &next), stream_yes),
        call_ensures(MarkTask::accepts::<E>, (&*final(task), &next), yes),
    ensures
        final(streamed)@ == final(live)@,
        match action@ {
            MarkActionView::Return(Err(error)) => {
                &&& event@ == MarkActionView::<E>::Yield(MarkEventView::Error(error))
                &&& stream_yes <==> next@ is Resume
            },
            _ => {
                &&& event@ == action@
                &&& stream_yes <==> yes
                &&& !(action@ is Return) ==> final(stream)@ == GcMarkState::Running(final(task)@)
            },
        },
{
    lemma_visits::<E>(old(task)@, old(live)@);
}

/// A new stream carries a new phase.
pub proof fn law_mark_stream_begins_with_the_phase(stream: GcMark, task: MarkTask)
    requires
        call_ensures(GcMark::new, (), stream),
        call_ensures(MarkTask::new, (), task),
    ensures
        stream@ == GcMarkState::Running(task@),
{
}

/// After each step the stream awaits what answers its action, and nothing else. Its end is never
/// a failure.
pub proof fn law_mark_stream_awaits_the_answer<E>(
    stream: &mut GcMark,
    live: &mut DigestSet,
    input: MarkInput<E>,
    action: MarkAction<E>,
    next: MarkInput<E>,
    yes: bool,
)
    requires
        call_ensures(GcMark::accepts::<E>, (&*old(stream), &input), true),
        call_ensures(GcMark::step::<E>, (stream, live, input), action),
        call_ensures(GcMark::accepts::<E>, (&*final(stream), &next), yes),
    ensures
        yes <==> mark_replies(action@, next@),
        !(action@ matches MarkActionView::Return(Err(_))),
{
    match old(stream)@ {
        GcMarkState::Running(task) => lemma_visits::<E>(task, old(live)@),
        _ => {},
    }
}

/// A failure is the last event of the stream: after it the stream is over, whatever it is told.
pub proof fn law_mark_failure_is_the_last_event<E>(
    before: &mut GcMark,
    live: &mut DigestSet,
    input: MarkInput<E>,
    action: MarkAction<E>,
    error: E,
    after: &mut GcMark,
    later: &mut DigestSet,
    next: MarkInput<E>,
    end: MarkAction<E>,
)
    requires
        call_ensures(GcMark::accepts::<E>, (&*old(before), &input), true),
        call_ensures(GcMark::step::<E>, (before, live, input), action),
        action@ == MarkActionView::<E>::Yield(MarkEventView::Error(error)),
        old(after)@ == final(before)@,
        call_ensures(GcMark::accepts::<E>, (&*old(after), &next), true),
        call_ensures(GcMark::step::<E>, (after, later, next), end),
    ensures
        mark_failure(input@) == Some(error),
        next@ is Resume,
        end@ == MarkActionView::<E>::Return(Ok(())),
        final(later)@ == old(later)@,
{
    match old(before)@ {
        GcMarkState::Running(task) => lemma_visits::<E>(task, old(live)@),
        _ => {},
    }
}

/// A new sweep phase awaits to go on, and nothing else; it then opens the listing of the blobs.
pub proof fn law_sweep_begins_with_the_blobs<E>(
    task: &mut SweepTask,
    live: DigestSet,
    input: SweepInput<E>,
    yes: bool,
    action: SweepAction<E>,
)
    requires
        call_ensures(SweepTask::new, (), *old(task)),
        call_ensures(SweepTask::accepts::<E>, (&*old(task), &input), yes),
        call_ensures(SweepTask::step::<E>, (task, &live, input), action),
    ensures
        yes <==> input is Resume,
        action@ == SweepActionView::<E>::ListBlobs,
{
}

/// After each step the sweep phase awaits what answers its action, and nothing else. It can refuse
/// no answer but a blob, which it might not be able to count.
pub proof fn law_sweep_awaits_the_answer<E>(
    task: &mut SweepTask,
    live: DigestSet,
    input: SweepInput<E>,
    action: SweepAction<E>,
    next: SweepInput<E>,
    yes: bool,
)
    requires
        call_ensures(SweepTask::accepts::<E>, (&*old(task), &input), true),
        call_ensures(SweepTask::step::<E>, (task, &live, input), action),
        call_ensures(SweepTask::accepts::<E>, (&*final(task), &next), yes),
    ensures
        yes ==> sweep_replies(action@, next),
        sweep_replies(action@, next) ==> yes || (next matches SweepInput::Blob(Some(Ok(_)))),
{
}

/// A failure of the store ends the sweep phase and is its result, and the phase has no other
/// failure. The phase does not report failures itself.
pub proof fn law_sweep_fails_with_the_store<E>(
    task: &mut SweepTask,
    live: DigestSet,
    input: SweepInput<E>,
    action: SweepAction<E>,
    error: E,
)
    requires
        call_ensures(SweepTask::accepts::<E>, (&*old(task), &input), true),
        call_ensures(SweepTask::step::<E>, (task, &live, input), action),
    ensures
        action@ == SweepActionView::<E>::Return(Err(error)) <==> sweep_failure(input) == Some(
            error,
        ),
        action@ != SweepActionView::<E>::Yield(SweepEventView::Error(error)),
{
}

/// A blob is counted if and only if it is not live; and it is then in the batch that is gathered,
/// or in the one whose deletion is asked for.
pub proof fn law_dead_blob_is_gathered<E>(
    task: &mut SweepTask,
    live: DigestSet,
    hash: Digest,
    batch: Seq<Digest>,
    count: u64,
    action: SweepAction<E>,
)
    requires
        old(task)@ == SweepState::Blobs(batch, count),
        count < u64::MAX,
        call_ensures(SweepTask::step::<E>, (task, &live, SweepInput::Blob(Some(Ok(hash)))), action),
    ensures
        match final(task)@ {
            SweepState::Blobs(gathered, counted) => {
                &&& action@ is NextBlob
                &&& gathered == if live@.contains(hash) {
                    batch
                } else {
                    batch + seq![hash]
                }
                &&& counted == count + (gathered.len() - batch.len())
            },
            SweepState::Deleting(counted) => {
                &&& action@ == SweepActionView::<E>::Delete(batch + seq![hash])
                &&& !live@.contains(hash)
                &&& batch.len() >= 99
                &&& counted == count + 1
            },
            _ => false,
        },
        batch.len() < 99 || live@.contains(hash) ==> action@ is NextBlob,
{
    assert(batch.push(hash) =~= batch + seq![hash]);
}

/// The stream does what its phase does, but for a failure, which it reports.
pub proof fn law_sweep_stream_carries_the_phase<E>(
    stream: &mut GcSweep,
    event: SweepAction<E>,
    task: &mut SweepTask,
    action: SweepAction<E>,
    live: DigestSet,
    input: SweepInput<E>,
    next: SweepInput<E>,
    stream_yes: bool,
    yes: bool,
)
    requires
        old(stream)@ == GcSweepState::Running(old(task)@),
        call_ensures(SweepTask::accepts::<E>, (&*old(task), &input), true),
        call_ensures(GcSweep::step::<E>, (stream, &live, input), event),
        call_ensures(SweepTask::step::<E>, (task, &live, input), action),
        call_ensures(GcSweep::accepts::<E>, (&*final(stream), &next), stream_yes),
        call_ensures(SweepTask::accepts::<E>, (&*final(task), &next), yes),
    ensures
        match action@ {
            SweepActionView::Return(Err(error)) => {
                &&& event@ == SweepActionView::<E>::Yield(SweepEventView::Error(error))
                &&& stream_yes <==> next is Resume
            },
            _ => {
                &&& event@ == action@
                &&& stream_yes <==> yes
                &&& !(action@ is Return) ==> final(stream)@ == GcSweepState::Running(final(task)@)
            },
        },
{
}

/// A new stream carries a new phase.
pub proof fn law_sweep_stream_begins_with_the_phase(stream: GcSweep, task: SweepTask)
    requires
        call_ensures(GcSweep::new, (), stream),
        call_ensures(SweepTask::new, (), task),
    ensures
        stream@ == GcSweepState::Running(task@),
{
}

/// After each step the stream awaits what answers its action, and nothing else, but for a blob
/// that it might not be able to count. Its end is never a failure.
pub proof fn law_sweep_stream_awaits_the_answer<E>(
    stream: &mut GcSweep,
    live: DigestSet,
    input: SweepInput<E>,
    action: SweepAction<E>,
    next: SweepInput<E>,
    yes: bool,
)
    requires
        call_ensures(GcSweep::accepts::<E>, (&*old(stream), &input), true),
        call_ensures(GcSweep::step::<E>, (stream, &live, input), action),
        call_ensures(GcSweep::accepts::<E>, (&*final(stream), &next), yes),
    ensures
        yes ==> sweep_replies(action@, next),
        sweep_replies(action@, next) ==> yes || (next matches SweepInput::Blob(Some(Ok(_)))),
        !(action@ matches SweepActionView::Return(Err(_))),
{
}

/// A failure is the last event of the stream: after it the stream is over, whatever it is told.
pub proof fn law_sweep_failure_is_the_last_event<E>(
    before: &mut GcSweep,
    live: DigestSet,
    input: SweepInput<E>,
    action: SweepAction<E>,
    error: E,
    after: &mut GcSweep,
    next: SweepInput<E>,
    end: SweepAction<E>,
)
    requires
        call_ensures(GcSweep::accepts::<E>, (&*old(before), &input), true),
        call_ensures(GcSweep::step::<E>, (before, &live, input), action),
        action@ == SweepActionView::<E>::Yield(SweepEventView::Error(error)),
        old(after)@ == final(before)@,
        call_ensures(GcSweep::accepts::<E>, (&*old(after), &next), true),
        call_ensures(GcSweep::step::<E>, (after, &live, next), end),
    ensures
        sweep_failure(input) == Some(error),
        next is Resume,
        end@ == SweepActionView::<E>::Return(Ok(())),
{
}

/// A new cycle has taken no input.
pub proof fn law_new_cycle_has_no_history<E>(cycle: GcRunOnce, first: Set<Digest>)
    requires
        call_ensures(GcRunOnce::new, (), cycle),
    ensures
        cycle@ == cycle_run(first, Seq::<CycleInputView<E>>::empty()).state,
{
}

/// A step makes the history of a cycle longer by the input that it took and the action that it
/// gave; and the cycle accepts an input if and only if the longer history is an awaited one.
pub proof fn law_steps_make_the_history<E>(
    first: Set<Digest>,
    inputs: Seq<CycleInputView<E>>,
    cycle: &mut GcRunOnce,
    live: &mut DigestSet,
    input: CycleInput<E>,
    yes: bool,
    action: CycleAction<E>,
)
    requires
        awaited(first, inputs),
        old(cycle)@ == cycle_run(first, inputs).state,
        old(live)@ == cycle_run(first, inputs).live,
        call_ensures(GcRunOnce::accepts::<E>, (&*old(cycle), &input), yes),
        call_ensures(GcRunOnce::step::<E>, (cycle, live, input), action),
    ensures
        yes <==> awaited(first, inputs.push(input@)),
        yes ==> {
            let longer = cycle_run(first, inputs.push(input@));
            &&& final(cycle)@ == longer.state
            &&& final(live)@ == longer.live
            &&& longer.actions == cycle_run(first, inputs).actions + seq![action@]
        },
{
    assert(inputs.push(input@).drop_last() =~= inputs);
}

proof fn lemma_visit_ignores_liveness<E>(
    live: Set<Digest>,
    other: Set<Digest>,
    rest: Seq<HashAndFormat>,
)
    ensures
        ({
            let (step, twin) = (visit::<E>(live, rest), visit::<E>(other, rest));
            &&& step.state == twin.state
            &&& step.state is Counted || step.action == twin.action
            &&& forall|h: Digest| #[trigger]
                step.live.contains(h) ==> live.contains(h) || twin.live.contains(h)
            &&& forall|h: Digest| #[trigger] live.contains(h) ==> step.live.contains(h)
        }),
    decreases rest.len(),
{
    if rest.len() > 0 {
        let hash = rest.last().hash;
        lemma_visit_ignores_liveness::<E>(live.insert(hash), other.insert(hash), rest.drop_last());
        let step = visit::<E>(live, rest);
        let twin = visit::<E>(other, rest);
        assert(other.insert(hash).contains(hash));
        lemma_visit_ignores_liveness::<E>(other.insert(hash), live.insert(hash), rest.drop_last());
        assert(twin.live.contains(hash));
        assert forall|h: Digest| #[trigger] live.contains(h) implies step.live.contains(h) by {
            assert(live.insert(hash).contains(h));
        }
    }
}

/// What the mark phase does next does not depend on what is live, nor does what it makes live: two
/// phases that stand at the same point and are told the same go on in the same way, whatever their
/// live sets. Only the report of the number of live blobs differs.
pub proof fn law_mark_ignores_liveness<E>(
    task: &mut MarkTask,
    live: &mut DigestSet,
    action: MarkAction<E>,
    twin: &mut MarkTask,
    other: &mut DigestSet,
    twin_action: MarkAction<E>,
    input: MarkInput<E>,
    hash: Digest,
)
    requires
        old(task)@ == old(twin)@,
        call_ensures(MarkTask::accepts::<E>, (&*old(task), &input), true),
        call_ensures(MarkTask::step::<E>, (task, live, input), action),
        call_ensures(MarkTask::step::<E>, (twin, other, input), twin_action),
    ensures
        final(task)@ == final(twin)@,
        action@ == twin_action@ || final(task)@ is Counted,
        old(live)@.contains(hash) ==> final(live)@.contains(hash),
        !old(live)@.contains(hash) && !old(other)@.contains(hash) ==> final(live)@.contains(hash)
            == final(other)@.contains(hash),
{
    let (here, there) = (old(live)@, old(other)@);
    match old(task)@ {
        MarkState::TempTags(rest) => {
            lemma_visit_ignores_liveness::<E>(here, there, rest);
            lemma_visit_ignores_liveness::<E>(there, here, rest);
            assert(!here.contains(hash) && !there.contains(hash) ==> (visit::<E>(
                here,
                rest,
            ).live.contains(hash) <==> visit::<E>(there, rest).live.contains(hash)));
        },
        MarkState::Children(_, rest) => {
            lemma_visit_ignores_liveness::<E>(here, there, rest);
            lemma_visit_ignores_liveness::<E>(there, here, rest);
            assert(!here.contains(hash) && !there.contains(hash) ==> (visit::<E>(
                here,
                rest,
            ).live.contains(hash) <==> visit::<E>(there, rest).live.contains(hash)));
        },
        _ => {},
    }
}

/// What the sweep phase does next depends on the live set only through whether the listed blob is
/// in it.
pub proof fn law_sweep_looks_at_the_listed_blob_only<E>(
    task: &mut SweepTask,
    live: DigestSet,
    action: SweepAction<E>,
    twin: &mut SweepTask,
    other: DigestSet,
    twin_action: SweepAction<E>,
    input: SweepInput<E>,
)
    requires
        old(task)@ == old(twin)@,
        call_ensures(SweepTask::accepts::<E>, (&*old(task), &input), true),
        call_ensures(SweepTask::step::<E>, (task, &live, input), action),
        call_ensures(SweepTask::step::<E>, (twin, &other, input), twin_action),
        input matches SweepInput::Blob(Some(Ok(hash))) ==> live@.contains(hash) == other@.contains(
            hash,
        ),
    ensures
        final(task)@ == final(twin)@,
        action@ == twin_action@,
{
}

/// What a cycle does next depends on the live set only through whether the listed blob is in it,
/// and through the reported number of live blobs.
pub proof fn law_cycle_looks_at_the_listed_blob_only<E>(
    cycle: &mut GcRunOnce,
    live: &mut DigestSet,
    action: CycleAction<E>,
    twin: &mut GcRunOnce,
    other: &mut DigestSet,
    twin_action: CycleAction<E>,
    input: CycleInput<E>,
)
    requires
        old(cycle)@ == old(twin)@,
        call_ensures(GcRunOnce::accepts::<E>, (&*old(cycle), &input), true),
        call_ensures(GcRunOnce::step::<E>, (cycle, live, input), action),
        call_ensures(GcRunOnce::step::<E>, (twin, other, input), twin_action),
        input@ matches CycleInputView::Sweep(SweepInput::Blob(Some(Ok(hash)))) ==> old(
            live,
        )@.contains(hash) == old(other)@.contains(hash),
    ensures
        final(cycle)@ == final(twin)@,
        action@ == twin_action@ || (final(cycle)@ matches CycleState::Marking(
            GcMarkState::Running(mark),
            _,
        ) && mark is Counted),
        input@ is Sweep ==> final(live)@ == old(live)@,
{
    let (here, there) = (old(live)@, old(other)@);
    match old(cycle)@ {
        CycleState::Marking(GcMarkState::Running(MarkState::TempTags(rest)), _) => {
            lemma_visit_ignores_liveness::<E>(here, there, rest);
            lemma_visit_opens::<E>(here, rest);
            lemma_visit_opens::<E>(there, rest);
        },
        CycleState::Marking(GcMarkState::Running(MarkState::Children(_, rest)), _) => {
            lemma_visit_ignores_liveness::<E>(here, there, rest);
            lemma_visit_opens::<E>(here, rest);
            lemma_visit_opens::<E>(there, rest);
        },
        _ => {},
    }
}

} // verus!
