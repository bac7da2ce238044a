//! What a cycle asks for next, in terms of what it was told and what it asked for before.

use vstd::prelude::*;
use crate::cycle::{CycleActionView, CycleInputView, CycleState};
use crate::digest::Digest;
use crate::event::{MarkEventView, SweepEventView};
use crate::history::{
    as_collection, awaited, batches, blobs_listed, claimed, claims, cycle_run, dead,
    each_opened_once, failure_of, is_incomplete, listed, opened, opened_by, unreadable, unswept,
};
use crate::laws::answers;
use crate::mark::{GcMarkState, MarkActionView, MarkInputView, MarkState};
use crate::poses::{lemma_posed, lemma_prefix, lemma_turn};
use crate::sweep::{GcSweepState, SweepActionView, SweepInput, SweepState};
use crate::text::decimal;
use crate::upkeep::{
    lemma_contains_extended, lemma_history, lemma_marked, lemma_return, seen, visited,
};

verus! {

/// The report of a text during the mark.
pub open spec fn says<E>(action: CycleActionView<E>, text: Seq<char>) -> bool {
    action == CycleActionView::<E>::Mark(MarkActionView::Yield(MarkEventView::CustomDebug(text)))
}

/// The phase goes on after a report or an opening.
pub open spec fn is_resume<E>(input: CycleInputView<E>) -> bool {
    input == CycleInputView::<E>::Mark(MarkInputView::Resume)
}

/// A listing of tags or temporary tags was opened.
pub open spec fn is_opened<E>(input: CycleInputView<E>) -> bool {
    input matches CycleInputView::Mark(MarkInputView::Listed(Ok(_)))
}

/// A tag was given.
pub open spec fn is_tag<E>(input: CycleInputView<E>) -> bool {
    input matches CycleInputView::Mark(MarkInputView::Tag(Some(Ok(_))))
}

/// A temporary tag was given.
pub open spec fn is_temp_tag<E>(input: CycleInputView<E>) -> bool {
    input matches CycleInputView::Mark(MarkInputView::TempTag(Some(_)))
}

/// The tags are at their end.
pub open spec fn no_more_tags<E>(input: CycleInputView<E>) -> bool {
    input == CycleInputView::<E>::Mark(MarkInputView::Tag(None))
}

/// A member of a collection was given.
pub open spec fn is_member<E>(input: CycleInputView<E>) -> bool {
    input matches CycleInputView::Mark(MarkInputView::Child(Some(Ok(_))))
}

/// A member of a collection could not be read.
pub open spec fn is_unread<E>(input: CycleInputView<E>) -> bool {
    input matches CycleInputView::Mark(MarkInputView::Child(Some(Err(_))))
}

/// The temporary tags, or the members of a collection, are at their end.
pub open spec fn is_turn<E>(input: CycleInputView<E>) -> bool {
    ||| input == CycleInputView::<E>::Mark(MarkInputView::TempTag(None))
    ||| input == CycleInputView::<E>::Mark(MarkInputView::Child(None))
}

/// A request of the sweep was carried out.
pub open spec fn is_done<E>(input: CycleInputView<E>) -> bool {
    input matches CycleInputView::Sweep(SweepInput::Done(Ok(_)))
}

/// A blob was listed.
pub open spec fn is_blob<E>(input: CycleInputView<E>) -> bool {
    input matches CycleInputView::Sweep(SweepInput::Blob(Some(Ok(_))))
}

/// The blobs are at their end.
pub open spec fn no_more_blobs<E>(input: CycleInputView<E>) -> bool {
    input == CycleInputView::<E>::Sweep(SweepInput::Blob(None))
}

/// The traversal of a collection is opened.
pub open spec fn opens<E>(action: CycleActionView<E>) -> bool {
    action matches CycleActionView::Mark(MarkActionView::OpenChildren(_, _))
}

/// A batch is deleted.
pub open spec fn deletes<E>(action: CycleActionView<E>) -> bool {
    action matches CycleActionView::Sweep(SweepActionView::Delete(_))
}

/// The tags are listed once, right after their listing was announced. Once the listing is open,
/// a tag is asked for; each tag is reported, and then the next one is asked for. After the last
/// tag, the temporary tags follow in the same way.
pub proof fn law_tags_are_read_in_turn<E>(first: Set<Digest>, inputs: Seq<CycleInputView<E>>)
    requires
        awaited(first, inputs),
        inputs.len() > 0,
    ensures
        ({
            let n = inputs.len() as int;
            let actions = cycle_run(first, inputs).actions;
            let (asked, action) = (actions[n - 2], actions.last());
            let (told, input) = (inputs[n - 2], inputs.last());
            &&& actions.len() == n
            &&& n == 2 && !(failure_of(input) is Some) ==> says(action, "traversing tags"@)
            &&& action == CycleActionView::<E>::Mark(MarkActionView::ListTags) <==> n == 3
            &&& action == CycleActionView::<E>::Mark(MarkActionView::NextTag) <==> n > 1 && {
                ||| asked == CycleActionView::<E>::Mark(MarkActionView::ListTags) && is_opened(
                    input,
                )
                ||| is_tag(told)
            }
            &&& input matches CycleInputView::Mark(MarkInputView::Tag(Some(Ok(tag)))) ==> says(
                action,
                "adding root "@ + tag.name_text + " "@ + tag.claim_text,
            )
            &&& no_more_tags(input) ==> says(action, "traversing temp roots"@)
            &&& action == CycleActionView::<E>::Mark(MarkActionView::ListTempTags) <==> n > 1
                && no_more_tags(told)
            &&& action == CycleActionView::<E>::Mark(MarkActionView::NextTempTag) <==> n > 1 && {
                ||| asked == CycleActionView::<E>::Mark(MarkActionView::ListTempTags) && is_opened(
                    input,
                )
                ||| is_temp_tag(told)
            }
            &&& input matches CycleInputView::Mark(MarkInputView::TempTag(Some(tag))) ==> says(
                action,
                "adding temp root "@ + tag.claim_text,
            )
        }),
{
    lemma_turn(first, inputs);
}

/// After the temporary tags, and after each collection, the next collection is opened: over all
/// its chunks, one that is claimed as a collection and was not opened before. When none is left,
/// the number of live blobs is reported.
pub proof fn law_collections_are_opened_in_turn<E>(
    first: Set<Digest>,
    inputs: Seq<CycleInputView<E>>,
)
    requires
        awaited(first, inputs),
        inputs.len() > 0,
    ensures
        ({
            let run = cycle_run(first, inputs);
            let earlier = run.actions.drop_last();
            let (action, input) = (run.actions.last(), inputs.last());
            &&& opens(action) ==> is_turn(input)
            &&& is_turn(input) ==> match action {
                CycleActionView::Mark(MarkActionView::OpenChildren(root, chunks)) => {
                    &&& chunks == Set::<u64>::full()
                    &&& claims(inputs).contains(as_collection(root))
                    &&& !opened(earlier).contains(root)
                },
                _ => {
                    &&& says(
                        action,
                        "gc mark done. found "@ + decimal(run.live.len()) + " live blobs"@,
                    )
                    &&& each_opened_once(claims(inputs), opened(run.actions))
                },
            }
        }),
{
    lemma_turn(first, inputs);
    lemma_history(first, inputs);
    let run = cycle_run(first, inputs);
    let earlier = cycle_run(first, inputs.drop_last()).actions;
    assert(run.actions.drop_last() =~= earlier);
    match opened_by(run.actions.last()) {
        Some(root) => {
            let now = opened(run.actions);
            lemma_contains_extended(opened(earlier), root);
            assert(now.contains(root));
            if opened(earlier).contains(root) {
                let i = choose|i: int| 0 <= i < opened(earlier).len() && opened(earlier)[i] == root;
                assert(now[i] == root && now[now.len() - 1] == root);
            }
        },
        None => {
            match run.state {
                CycleState::Marking(GcMarkState::Running(MarkState::Counted), safe) => {
                    lemma_marked(seen(first, inputs, safe));
                },
                _ => {},
            }
        },
    }
}

/// A member of a collection is asked for once the collection is open, after each member that was
/// read, and after a collection was reported as incomplete. A member that could not be read is
/// reported with the reason, and then its collection is reported as incomplete.
pub proof fn law_members_are_read_in_turn<E>(first: Set<Digest>, inputs: Seq<CycleInputView<E>>)
    requires
        awaited(first, inputs),
        inputs.len() > 0,
    ensures
        ({
            let n = inputs.len() as int;
            let actions = cycle_run(first, inputs).actions;
            let (asked, action) = (actions[n - 2], actions.last());
            let (told, input) = (inputs[n - 2], inputs.last());
            &&& action == CycleActionView::<E>::Mark(MarkActionView::NextChild) <==> is_member(
                input,
            ) || n > 1 && (opens(asked) || is_incomplete(asked))
            &&& input matches CycleInputView::Mark(MarkInputView::Child(Some(Err(why)))) ==> action
                == CycleActionView::<E>::Mark(
                MarkActionView::Yield(
                    MarkEventView::CustomWarning("error while traversing hashseq: "@ + why, None),
                ),
            )
            &&& is_incomplete(action) <==> n > 1 && is_unread(told)
            &&& n > 1 && is_unread(told) ==> {
                &&& opened(actions).len() > 0
                &&& action == CycleActionView::<E>::Mark(
                    MarkActionView::Yield(
                        MarkEventView::TraversalIncomplete(opened(actions).last()),
                    ),
                )
            }
        }),
{
    lemma_turn(first, inputs);
    lemma_history(first, inputs);
}

/// The cycle goes on as soon as the number of live blobs was reported: with the listing of the
/// blobs, if every member could be read; if not, the cycle is over. A sweep begins in no other way.
pub proof fn law_sweep_begins_with_the_listing<E>(
    first: Set<Digest>,
    inputs: Seq<CycleInputView<E>>,
)
    requires
        awaited(first, inputs),
        inputs.len() > 0,
    ensures
        ({
            let n = inputs.len() as int;
            let actions = cycle_run(first, inputs).actions;
            let (asked, action) = (actions[n - 2], actions.last());
            let marked_all = n > 1 && is_turn(inputs[n - 2]) && !opens(asked);
            &&& action == CycleActionView::<E>::Sweep(SweepActionView::ListBlobs) <==> marked_all
                && !unreadable(inputs)
            &&& action is Sweep && unswept(actions.drop_last()) <==> marked_all && !unreadable(
                inputs,
            )
            &&& marked_all && unreadable(inputs) ==> action == CycleActionView::<E>::Return(Ok(()))
        }),
{
    lemma_turn(first, inputs);
    lemma_history(first, inputs);
    let earlier = cycle_run(first, inputs.drop_last()).actions;
    assert(cycle_run(first, inputs).actions.drop_last() =~= earlier);
}

/// The blobs that were found dead and whose deletion was not asked for before the last input.
pub open spec fn pending<E>(first: Set<Digest>, inputs: Seq<CycleInputView<E>>) -> Seq<Digest> {
    let run = cycle_run(first, inputs);
    dead(listed(inputs), run.live).skip(
        batches(run.actions.drop_last()).flatten().len() as int,
    )
}

/// A blob is asked for once the listing is open, after each blob that does not fill the batch, and
/// after each full batch was deleted. The hundredth dead blob fills the batch, which is deleted.
/// After the last blob, what is left is deleted, if anything is; then all is made durable, once.
/// Then the number of dead blobs is reported, and the cycle is over.
pub proof fn law_blobs_are_swept_in_turn<E>(first: Set<Digest>, inputs: Seq<CycleInputView<E>>)
    requires
        awaited(first, inputs),
        inputs.len() > 0,
    ensures
        ({
            let n = inputs.len() as int;
            let run = cycle_run(first, inputs);
            let (asked, action) = (run.actions[n - 2], run.actions.last());
            let input = inputs.last();
            let due = pending(first, inputs);
            &&& action == CycleActionView::<E>::Sweep(SweepActionView::NextBlob) <==> {
                ||| is_blob(input) && due.len() < 100
                ||| n > 1 && is_done(input) && {
                    ||| asked == CycleActionView::<E>::Sweep(SweepActionView::ListBlobs)
                    ||| deletes(asked) && !blobs_listed(inputs)
                }
            }
            &&& deletes(action) <==> {
                ||| is_blob(input) && due.len() >= 100
                ||| no_more_blobs(input) && due.len() > 0
            }
            &&& deletes(action) ==> action == CycleActionView::<E>::Sweep(
                SweepActionView::Delete(due),
            ) && due.len() <= 100
            &&& action == CycleActionView::<E>::Sweep(SweepActionView::SyncDb) <==> {
                ||| no_more_blobs(input) && due.len() == 0
                ||| n > 1 && is_done(input) && deletes(asked) && blobs_listed(inputs)
            }
            &&& n > 1 && is_done(input) && asked == CycleActionView::<E>::Sweep(
                SweepActionView::SyncDb,
            ) ==> action == CycleActionView::<E>::Sweep(
                SweepActionView::Yield(
                    SweepEventView::CustomDebug(
                        "deleted "@ + decimal(dead(listed(inputs), run.live).len()) + " blobs"@,
                    ),
                ),
            )
            &&& n > 1 && (asked matches CycleActionView::Sweep(SweepActionView::Yield(_)))
                ==> action == CycleActionView::<E>::Return(Ok(()))
        }),
{
    lemma_turn(first, inputs);
    lemma_history(first, inputs);
    let before = inputs.drop_last();
    let run = cycle_run(first, before);
    let after = cycle_run(first, inputs);
    assert(after.actions.drop_last() =~= run.actions);
    let due = pending(first, inputs);
    match (run.state, inputs.last()) {
        (
            CycleState::Sweeping(GcSweepState::Running(SweepState::Blobs(batch, _))),
            CycleInputView::Sweep(SweepInput::Blob(Some(Ok(hash)))),
        ) => {
            assert(listed(inputs) =~= listed(before).push(hash));
            listed(before).lemma_filter_push(hash, |hash: Digest| !run.live.contains(hash));
            if run.live.contains(hash) {
                assert(due =~= batch);
            } else {
                assert(due =~= batch.push(hash));
            }
        },
        (CycleState::Sweeping(GcSweepState::Running(SweepState::Blobs(batch, _))), _) => {
            assert(due =~= batch);
        },
        _ => {},
    }
}

/// A member that was read becomes live. Going on with the next collection makes claimed digests
/// live, among them that of the collection. Nothing else changes the live set, and nothing leaves
/// it.
pub proof fn law_live_set_grows_by_what_is_found<E>(
    first: Set<Digest>,
    inputs: Seq<CycleInputView<E>>,
)
    requires
        awaited(first, inputs),
        inputs.len() > 0,
    ensures
        ({
            let run = cycle_run(first, inputs);
            let live = cycle_run(first, inputs.drop_last()).live;
            let input = inputs.last();
            &&& live.subset_of(run.live)
            &&& match input {
                CycleInputView::Mark(MarkInputView::Child(Some(Ok(child)))) => run.live
                    == live.insert(child),
                _ => is_turn(input) || run.live == live,
            }
            &&& is_turn(input) ==> forall|hash: Digest| #[trigger]
                run.live.contains(hash) ==> live.contains(hash) || claimed(claims(inputs), hash)
            &&& opened_by(run.actions.last()) matches Some(root) ==> run.live.contains(root)
        }),
{
    lemma_turn(first, inputs);
    lemma_history(first, inputs);
    let before = inputs.drop_last();
    let run = cycle_run(first, before);
    let after = cycle_run(first, inputs);
    if is_turn(inputs.last()) {
        assert forall|hash: Digest| #[trigger] after.live.contains(hash) implies run.live.contains(
            hash,
        ) || claimed(claims(inputs), hash) by {
            let rest = match run.state {
                CycleState::Marking(GcMarkState::Running(MarkState::TempTags(rest)), _) => rest,
                CycleState::Marking(GcMarkState::Running(MarkState::Children(_, rest)), _) => rest,
                _ => Seq::empty(),
            };
            if claimed(rest, hash) {
                let i = choose|i: int| 0 <= i < rest.len() && (#[trigger] rest[i]).hash == hash;
                assert(rest.contains(rest[i]));
                let j = choose|j: int|
                    0 <= j < claims(inputs).len() && claims(inputs)[j] == rest[i];
                assert(claims(inputs)[j].hash == hash);
            }
        }
    }
    match opened_by(after.actions.last()) {
        Some(root) => {
            let (rest, safe) = match after.state {
                CycleState::Marking(GcMarkState::Running(MarkState::Opening(_, rest)), safe) => (
                    rest,
                    safe,
                ),
                _ => (Seq::empty(), true),
            };
            lemma_contains_extended(opened(run.actions), root);
            assert(opened(after.actions).contains(root));
            assert(visited(claims(inputs), rest, root)) by {
                assert(claims(inputs).contains(as_collection(root)));
            }
            assert(seen(first, inputs, safe).live.contains(root));
        },
        None => {},
    }
}

/// A cycle begins with `Begin`. From then on it awaits what answers its last action, and nothing
/// else.
pub proof fn law_only_answers_are_awaited<E>(
    first: Set<Digest>,
    inputs: Seq<CycleInputView<E>>,
    next: CycleInputView<E>,
)
    requires
        awaited(first, inputs.push(next)),
    ensures
        inputs.len() == 0 ==> next is Begin,
        inputs.len() > 0 ==> answers(cycle_run(first, inputs).actions.last(), next),
{
    assert(inputs.push(next).drop_last() =~= inputs);
    lemma_posed(first, inputs);
}

/// A cycle that has taken no input awaits `Begin`.
pub proof fn law_cycle_awaits_its_beginning<E>(first: Set<Digest>)
    ensures
        awaited(first, seq![CycleInputView::<E>::Begin]),
{
    let inputs = seq![CycleInputView::<E>::Begin];
    assert(inputs.drop_last() =~= Seq::empty());
    assert(awaited(first, Seq::<CycleInputView<E>>::empty()));
}

/// No listing is opened twice, and the deletions are made durable once.
pub proof fn law_nothing_is_requested_twice<E>(
    first: Set<Digest>,
    inputs: Seq<CycleInputView<E>>,
    j: int,
    k: int,
)
    requires
        awaited(first, inputs),
        0 <= j < k < inputs.len(),
    ensures
        ({
            let actions = cycle_run(first, inputs).actions;
            let repeated = |action: CycleActionView<E>|
                actions[j] == action && actions[k] == action;
            &&& !repeated(CycleActionView::Mark(MarkActionView::ListTags))
            &&& !repeated(CycleActionView::Mark(MarkActionView::ListTempTags))
            &&& !repeated(CycleActionView::Sweep(SweepActionView::ListBlobs))
            &&& !repeated(CycleActionView::Sweep(SweepActionView::SyncDb))
        }),
{
    let actions = cycle_run(first, inputs).actions;
    let (sooner, later) = (inputs.take(j + 1), inputs.take(k + 1));
    lemma_prefix(first, inputs, j + 1);
    lemma_prefix(first, inputs, k + 1);
    law_tags_are_read_in_turn(first, sooner);
    law_tags_are_read_in_turn(first, later);
    law_sweep_begins_with_the_listing(first, later);
    lemma_turn(first, later);
    let earlier = cycle_run(first, later.drop_last()).actions;
    assert(cycle_run(first, later).actions.drop_last() =~= earlier);
    assert(earlier =~= actions.take(k));
    assert(earlier[j] == actions[j]);
    assert(earlier.contains(actions[j]));
}

/// Whether the action `m`, before `k`, was this request, and it was granted.
pub open spec fn granted<E>(
    inputs: Seq<CycleInputView<E>>,
    actions: Seq<CycleActionView<E>>,
    request: CycleActionView<E>,
    m: int,
    k: int,
) -> bool {
    &&& 0 <= m < k
    &&& actions[m] == request
    &&& is_opened(inputs[m + 1]) || is_done(inputs[m + 1])
}

/// A tag, a temporary tag or a blob is asked for only after its listing was opened. The tags were
/// opened right after they were announced.
pub proof fn law_listings_are_opened_before_they_are_read<E>(
    first: Set<Digest>,
    inputs: Seq<CycleInputView<E>>,
    k: int,
)
    requires
        awaited(first, inputs),
        0 <= k < inputs.len(),
    ensures
        ({
            let actions = cycle_run(first, inputs).actions;
            &&& actions[k] == CycleActionView::<E>::Mark(MarkActionView::NextTag) ==> granted(
                inputs,
                actions,
                CycleActionView::Mark(MarkActionView::ListTags),
                2,
                k,
            )
            &&& actions[k] == CycleActionView::<E>::Mark(MarkActionView::NextTempTag) ==> exists|
                m: int,
            | #[trigger]
                granted(
                    inputs,
                    actions,
                    CycleActionView::Mark(MarkActionView::ListTempTags),
                    m,
                    k,
                )
            &&& actions[k] == CycleActionView::<E>::Sweep(SweepActionView::NextBlob) ==> exists|
                m: int,
            | #[trigger]
                granted(
                    inputs,
                    actions,
                    CycleActionView::Sweep(SweepActionView::ListBlobs),
                    m,
                    k,
                )
        }),
    decreases k,
{
    let actions = cycle_run(first, inputs).actions;
    let temp_tags = CycleActionView::<E>::Mark(MarkActionView::ListTempTags);
    let blobs = CycleActionView::<E>::Sweep(SweepActionView::ListBlobs);
    let now = inputs.take(k + 1);
    lemma_prefix(first, inputs, k + 1);
    law_tags_are_read_in_turn(first, now);
    law_blobs_are_swept_in_turn(first, now);
    if k == 0 {
        assert(inputs.take(0).push(inputs[0]) =~= now);
        law_only_answers_are_awaited(first, inputs.take(0), inputs[0]);
    } else {
        let then = inputs.take(k);
        lemma_prefix(first, inputs, k);
        assert(then.push(inputs[k]) =~= now);
        law_only_answers_are_awaited(first, then, inputs[k]);
        law_tags_are_read_in_turn(first, then);
        law_blobs_are_swept_in_turn(first, then);
        assert(now[k - 1] == inputs[k - 1] && now.contains(inputs[k - 1]));
        assert(actions[k - 1] == temp_tags && is_opened(inputs[k]) ==> granted(
            inputs,
            actions,
            temp_tags,
            k - 1,
            k,
        ));
        assert(actions[k - 1] == blobs && is_done(inputs[k]) ==> granted(
            inputs,
            actions,
            blobs,
            k - 1,
            k,
        ));
        let asked: int = if is_blob(inputs[k]) {
            k - 1
        } else {
            k - 2
        };
        if is_tag(inputs[k - 1]) || is_temp_tag(inputs[k - 1]) || is_blob(inputs[k - 1]) {
            lemma_prefix(first, inputs, k - 1);
            assert(inputs.take(k - 1).push(inputs[k - 1]) =~= then);
            law_only_answers_are_awaited(first, inputs.take(k - 1), inputs[k - 1]);
        }
        if asked >= 0 {
            law_listings_are_opened_before_they_are_read(first, inputs, asked);
            assert forall|m: int| #[trigger]
                granted(inputs, actions, temp_tags, m, asked) implies granted(
                inputs,
                actions,
                temp_tags,
                m,
                k,
            ) by {}
            assert forall|m: int| #[trigger]
                granted(inputs, actions, blobs, m, asked) implies granted(
                inputs,
                actions,
                blobs,
                m,
                k,
            ) by {}
        }
    }
}

/// Whether an input says that the store failed, in whatever it was asked for.
pub open spec fn fails_with<E>(input: CycleInputView<E>, error: E) -> bool {
    ||| input == CycleInputView::<E>::Cleared(Err(error))
    ||| input == CycleInputView::<E>::Mark(MarkInputView::Listed(Err(error)))
    ||| input == CycleInputView::<E>::Mark(MarkInputView::Tag(Some(Err(error))))
    ||| input == CycleInputView::<E>::Sweep(SweepInput::Done(Err(error)))
    ||| input == CycleInputView::<E>::Sweep(SweepInput::Blob(Some(Err(error))))
}

/// A cycle ends at once with the error of the store, wherever the store fails, and with no other.
pub proof fn law_every_failure_is_returned<E>(
    first: Set<Digest>,
    inputs: Seq<CycleInputView<E>>,
    error: E,
)
    requires
        awaited(first, inputs),
        inputs.len() > 0,
    ensures
        fails_with(inputs.last(), error) <==> cycle_run(first, inputs).actions.last()
            == CycleActionView::<E>::Return(Err(error)),
{
    lemma_turn(first, inputs);
    lemma_return(first, inputs);
}

} // verus!
