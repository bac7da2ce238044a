//! What happened in a cycle so far: the inputs it took, and the actions it answered with.

use vstd::prelude::*;
use crate::cycle::{cycle_step, CycleActionView, CycleInputView, CycleState};
use crate::digest::{BlobFormat, Digest, HashAndFormat};
use crate::mark::{MarkActionView, MarkInputView};
use crate::sweep::{SweepActionView, SweepInput, BATCH_SIZE};

verus! {

/// A cycle after some inputs: where it stands, the live set, and one action for each input.
pub struct CycleRun<E> {
    pub state: CycleState,
    pub live: Set<Digest>,
    pub actions: Seq<CycleActionView<E>>,
}

/// The cycle that began with this live set and took these inputs.
pub open spec fn cycle_run<E>(live: Set<Digest>, inputs: Seq<CycleInputView<E>>) -> CycleRun<E>
    decreases inputs.len(),
{
    if inputs.len() == 0 {
        CycleRun { state: CycleState::Start, live, actions: Seq::empty() }
    } else {
        let before = cycle_run(live, inputs.drop_last());
        let step = cycle_step(before.state, before.live, inputs.last());
        CycleRun { state: step.state, live: step.live, actions: before.actions.push(step.action) }
    }
}

/// Whether each of the inputs was awaited when it came.
pub open spec fn awaited<E>(live: Set<Digest>, inputs: Seq<CycleInputView<E>>) -> bool
    decreases inputs.len(),
{
    inputs.len() == 0 || {
        &&& awaited(live, inputs.drop_last())
        &&& cycle_run(live, inputs.drop_last()).state.accepts(inputs.last())
    }
}

/// The claim that an input of the mark phase brings.
pub open spec fn mark_claim<E>(input: MarkInputView<E>) -> Option<HashAndFormat> {
    match input {
        MarkInputView::Tag(Some(Ok(tag))) => Some(tag.claim),
        MarkInputView::TempTag(Some(tag)) => Some(tag.claim),
        _ => None,
    }
}

/// The member of a collection that an input of the mark phase brings.
pub open spec fn mark_member<E>(input: MarkInputView<E>) -> Option<Digest> {
    match input {
        MarkInputView::Child(Some(Ok(child))) => Some(child),
        _ => None,
    }
}

/// Whether an input of the mark phase says that a member of a collection could not be read.
pub open spec fn mark_unreadable<E>(input: MarkInputView<E>) -> bool {
    input matches MarkInputView::Child(Some(Err(_)))
}

/// Whether an input of the mark phase says that a collection was read to its end.
pub open spec fn mark_end<E>(input: MarkInputView<E>) -> Option<()> {
    match input {
        MarkInputView::Child(None) => Some(()),
        _ => None,
    }
}

/// The failure of the store that an input of the mark phase brings.
pub open spec fn mark_failure<E>(input: MarkInputView<E>) -> Option<E> {
    match input {
        MarkInputView::Listed(Err(error)) => Some(error),
        MarkInputView::Tag(Some(Err(error))) => Some(error),
        _ => None,
    }
}

/// The collection whose traversal an action of the mark phase opens.
pub open spec fn mark_opened<E>(action: MarkActionView<E>) -> Option<Digest> {
    match action {
        MarkActionView::OpenChildren(root, _) => Some(root),
        _ => None,
    }
}

/// The blob that an input of the sweep phase lists.
pub open spec fn sweep_listed<E>(input: SweepInput<E>) -> Option<Digest> {
    match input {
        SweepInput::Blob(Some(Ok(hash))) => Some(hash),
        _ => None,
    }
}

/// The failure of the store that an input of the sweep phase brings.
pub open spec fn sweep_failure<E>(input: SweepInput<E>) -> Option<E> {
    match input {
        SweepInput::Done(Err(error)) => Some(error),
        SweepInput::Blob(Some(Err(error))) => Some(error),
        _ => None,
    }
}

/// The batch that an action of the sweep phase deletes.
pub open spec fn sweep_batch<E>(action: SweepActionView<E>) -> Option<Seq<Digest>> {
    match action {
        SweepActionView::Delete(batch) => Some(batch),
        _ => None,
    }
}

/// The claim that an input brings.
pub open spec fn claim_of<E>(input: CycleInputView<E>) -> Option<HashAndFormat> {
    match input {
        CycleInputView::Mark(input) => mark_claim(input),
        _ => None,
    }
}

/// The member of a collection that an input brings.
pub open spec fn member_of<E>(input: CycleInputView<E>) -> Option<Digest> {
    match input {
        CycleInputView::Mark(input) => mark_member(input),
        _ => None,
    }
}

/// Whether an input says that a member of a collection could not be read.
pub open spec fn is_unreadable<E>(input: CycleInputView<E>) -> bool {
    match input {
        CycleInputView::Mark(input) => mark_unreadable(input),
        _ => false,
    }
}

/// Whether an input says that a collection was read to its end.
pub open spec fn end_of<E>(input: CycleInputView<E>) -> Option<()> {
    match input {
        CycleInputView::Mark(input) => mark_end(input),
        _ => None,
    }
}

/// The blob that an input lists.
pub open spec fn listed_by<E>(input: CycleInputView<E>) -> Option<Digest> {
    match input {
        CycleInputView::Sweep(input) => sweep_listed(input),
        _ => None,
    }
}

/// The failure of the store that an input brings.
pub open spec fn failure_of<E>(input: CycleInputView<E>) -> Option<E> {
    match input {
        CycleInputView::Begin => None,
        CycleInputView::Cleared(Ok(_)) => None,
        CycleInputView::Cleared(Err(error)) => Some(error),
        CycleInputView::Mark(input) => mark_failure(input),
        CycleInputView::Sweep(input) => sweep_failure(input),
    }
}

/// The collection whose traversal an action opens.
pub open spec fn opened_by<E>(action: CycleActionView<E>) -> Option<Digest> {
    match action {
        CycleActionView::Mark(action) => mark_opened(action),
        _ => None,
    }
}

/// The batch that an action deletes.
pub open spec fn batch_of<E>(action: CycleActionView<E>) -> Option<Seq<Digest>> {
    match action {
        CycleActionView::Sweep(action) => sweep_batch(action),
        _ => None,
    }
}

/// The claims of all tags and temporary tags, in the order in which they came.
pub open spec fn claims<E>(inputs: Seq<CycleInputView<E>>) -> Seq<HashAndFormat> {
    inputs.filter_map(|input: CycleInputView<E>| claim_of(input))
}

/// The members of all collections, in the order in which they came.
pub open spec fn members<E>(inputs: Seq<CycleInputView<E>>) -> Seq<Digest> {
    inputs.filter_map(|input: CycleInputView<E>| member_of(input))
}

/// Whether some member of a collection could not be read.
pub open spec fn unreadable<E>(inputs: Seq<CycleInputView<E>>) -> bool {
    exists|i: int| 0 <= i < inputs.len() && is_unreadable(#[trigger] inputs[i])
}

/// One entry for each collection that was read to its end.
pub open spec fn ends<E>(inputs: Seq<CycleInputView<E>>) -> Seq<()> {
    inputs.filter_map(|input: CycleInputView<E>| end_of(input))
}

/// Whether the tags were listed to their end.
pub open spec fn tags_listed<E>(inputs: Seq<CycleInputView<E>>) -> bool {
    inputs.contains(CycleInputView::Mark(MarkInputView::Tag(None)))
}

/// Whether the temporary tags were listed to their end.
pub open spec fn temp_tags_listed<E>(inputs: Seq<CycleInputView<E>>) -> bool {
    inputs.contains(CycleInputView::Mark(MarkInputView::TempTag(None)))
}

/// Whether the blobs were listed to their end.
pub open spec fn blobs_listed<E>(inputs: Seq<CycleInputView<E>>) -> bool {
    inputs.contains(CycleInputView::Sweep(SweepInput::Blob(None)))
}

/// The blobs that were listed, in the order in which they came.
pub open spec fn listed<E>(inputs: Seq<CycleInputView<E>>) -> Seq<Digest> {
    inputs.filter_map(|input: CycleInputView<E>| listed_by(input))
}

/// The collections whose traversals were opened, in the order in which that was asked for.
pub open spec fn opened<E>(actions: Seq<CycleActionView<E>>) -> Seq<Digest> {
    actions.filter_map(|action: CycleActionView<E>| opened_by(action))
}

/// The batches whose deletion was asked for, in that order.
pub open spec fn batches<E>(actions: Seq<CycleActionView<E>>) -> Seq<Seq<Digest>> {
    actions.filter_map(|action: CycleActionView<E>| batch_of(action))
}

/// Whether an action reports that a collection could not be read to its end.
pub open spec fn is_incomplete<E>(action: CycleActionView<E>) -> bool {
    action matches CycleActionView::Mark(MarkActionView::Yield(event)) && event
        is TraversalIncomplete
}

/// Whether some collection was reported as incomplete.
pub open spec fn incomplete<E>(actions: Seq<CycleActionView<E>>) -> bool {
    exists|i: int| 0 <= i < actions.len() && is_incomplete(#[trigger] actions[i])
}

/// Whether nothing was asked for on behalf of a sweep.
pub open spec fn unswept<E>(actions: Seq<CycleActionView<E>>) -> bool {
    forall|i: int| 0 <= i < actions.len() ==> !(#[trigger] actions[i] is Sweep)
}

/// The claim of a digest as a collection.
pub open spec fn as_collection(hash: Digest) -> HashAndFormat {
    HashAndFormat { hash, format: BlobFormat::HashSeq }
}

/// Whether one of the claims is of this digest, under whatever format.
pub open spec fn claimed(claims: Seq<HashAndFormat>, hash: Digest) -> bool {
    exists|i: int| 0 <= i < claims.len() && (#[trigger] claims[i]).hash == hash
}

/// Whether `live` holds what it held at first, every claimed digest, every member that was read,
/// and nothing else.
pub open spec fn marked(
    first: Set<Digest>,
    live: Set<Digest>,
    claims: Seq<HashAndFormat>,
    members: Seq<Digest>,
) -> bool {
    forall|hash: Digest| #[trigger]
        live.contains(hash) <==> first.contains(hash) || claimed(claims, hash) || members.contains(
            hash,
        )
}

/// Whether exactly the digests that are claimed as collections were opened, each of them once.
pub open spec fn each_opened_once(claims: Seq<HashAndFormat>, opened: Seq<Digest>) -> bool {
    &&& opened.no_duplicates()
    &&& forall|hash: Digest| #[trigger]
        opened.contains(hash) <==> claims.contains(as_collection(hash))
}

/// Whether every batch holds at least one blob and none too many, and all but the last are full.
pub open spec fn packed(batches: Seq<Seq<Digest>>) -> bool {
    forall|i: int|
        #![trigger batches[i]]
        0 <= i < batches.len() ==> {
            &&& 0 < batches[i].len() <= BATCH_SIZE
            &&& i < batches.len() - 1 ==> batches[i].len() == BATCH_SIZE
        }
}

/// The blobs of a listing that are not live, in the order of the listing.
pub open spec fn dead(listed: Seq<Digest>, live: Set<Digest>) -> Seq<Digest> {
    listed.filter(|hash: Digest| !live.contains(hash))
}

} // verus!
