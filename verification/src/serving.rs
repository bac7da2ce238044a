//! What a cycle does to a store that answers as its contents have it.

use vstd::prelude::*;
use crate::cycle::{CycleActionView, CycleInputView, CycleState};
use crate::digest::{Digest, HashAndFormat};
use crate::history::{
    as_collection, awaited, batches, claimed, claims, cycle_run, listed, members, opened,
    unreadable, unswept,
};
use crate::laws::{
    law_every_answer_is_awaited, law_every_collection_is_traversed, law_live_set_is_exact,
    succeeded,
};
use crate::mark::{
    visit, GcMarkState, MarkActionView, MarkInputView, MarkState, TagView, TempTagView,
};
use crate::poses::lemma_turn;
use crate::sweep::{GcSweepState, SweepActionView, SweepInput, SweepState};
use crate::upkeep::{lemma_contains_extended, lemma_cycle_inv, lemma_history, lemma_return};

verus! {

/// The contents of a store: its tags, its temporary tags, what the traversal of each collection
/// gives, and its blobs.
pub struct StoreView {
    pub tags: Seq<TagView>,
    pub temp_tags: Seq<TempTagView>,
    pub collections: spec_fn(Digest) -> Seq<Result<Digest, Seq<char>>>,
    pub blobs: Seq<Digest>,
}

/// How much of each open listing, and of the open collection, was asked for.
pub struct Session {
    pub tags: Option<nat>,
    pub temp_tags: Option<nat>,
    pub children: Option<(Digest, nat)>,
    pub blobs: Option<nat>,
}

/// One more was asked for, if the listing is open.
pub open spec fn advanced(at: Option<nat>) -> Option<nat> {
    match at {
        Some(n) => Some(n + 1),
        None => None,
    }
}

/// What is open after these actions.
pub open spec fn session<E>(actions: Seq<CycleActionView<E>>) -> Session
    decreases actions.len(),
{
    if actions.len() == 0 {
        Session { tags: None, temp_tags: None, children: None, blobs: None }
    } else {
        let s = session(actions.drop_last());
        match actions.last() {
            CycleActionView::Mark(MarkActionView::ListTags) => Session { tags: Some(0), ..s },
            CycleActionView::Mark(MarkActionView::NextTag) => Session {
                tags: advanced(s.tags),
                ..s
            },
            CycleActionView::Mark(MarkActionView::ListTempTags) => Session {
                temp_tags: Some(0),
                ..s
            },
            CycleActionView::Mark(MarkActionView::NextTempTag) => Session {
                temp_tags: advanced(s.temp_tags),
                ..s
            },
            CycleActionView::Mark(MarkActionView::OpenChildren(root, _)) => Session {
                children: Some((root, 0)),
                ..s
            },
            CycleActionView::Mark(MarkActionView::NextChild) => Session {
                children: match s.children {
                    Some((root, n)) => Some((root, n + 1)),
                    None => None,
                },
                ..s
            },
            CycleActionView::Sweep(SweepActionView::ListBlobs) => Session { blobs: Some(0), ..s },
            CycleActionView::Sweep(SweepActionView::NextBlob) => Session {
                blobs: advanced(s.blobs),
                ..s
            },
            _ => s,
        }
    }
}

/// The item that a listing gives next: none if it is not open or at its end.
pub open spec fn item<A>(items: Seq<A>, at: Option<nat>) -> Option<A> {
    match at {
        Some(n) => if n < items.len() {
            Some(items[n as int])
        } else {
            None
        },
        None => None,
    }
}

/// What the store answers to the last of these actions.
pub open spec fn reply<E>(store: StoreView, actions: Seq<CycleActionView<E>>) -> CycleInputView<E> {
    let s = session(actions.drop_last());
    if actions.len() == 0 {
        CycleInputView::Begin
    } else {
        match actions.last() {
            CycleActionView::ClearProtected => CycleInputView::Cleared(Ok(())),
            CycleActionView::Mark(action) => CycleInputView::Mark(
                match action {
                    MarkActionView::ListTags | MarkActionView::ListTempTags => {
                        MarkInputView::Listed(Ok(()))
                    },
                    MarkActionView::NextTag => MarkInputView::Tag(
                        match item(store.tags, s.tags) {
                            Some(tag) => Some(Ok(tag)),
                            None => None,
                        },
                    ),
                    MarkActionView::NextTempTag => MarkInputView::TempTag(
                        item(store.temp_tags, s.temp_tags),
                    ),
                    MarkActionView::NextChild => MarkInputView::Child(
                        match s.children {
                            Some((root, n)) => item((store.collections)(root), Some(n)),
                            None => None,
                        },
                    ),
                    _ => MarkInputView::Resume,
                },
            ),
            CycleActionView::Sweep(action) => CycleInputView::Sweep(
                match action {
                    SweepActionView::ListBlobs
                    | SweepActionView::Delete(_)
                    | SweepActionView::SyncDb => SweepInput::Done(Ok(())),
                    SweepActionView::NextBlob => SweepInput::Blob(
                        match item(store.blobs, s.blobs) {
                            Some(hash) => Some(Ok(hash)),
                            None => None,
                        },
                    ),
                    _ => SweepInput::Resume,
                },
            ),
            CycleActionView::Return(_) => CycleInputView::Begin,
        }
    }
}

/// Whether each input is what the store answered.
pub open spec fn served<E>(
    store: StoreView,
    first: Set<Digest>,
    inputs: Seq<CycleInputView<E>>,
) -> bool
    decreases inputs.len(),
{
    inputs.len() == 0 || {
        &&& served(store, first, inputs.drop_last())
        &&& inputs.last() == reply(store, cycle_run(first, inputs.drop_last()).actions)
    }
}

/// What the tags claim.
pub open spec fn tag_claims(store: StoreView) -> Seq<HashAndFormat> {
    store.tags.map_values(|tag: TagView| tag.claim)
}

/// What the temporary tags claim.
pub open spec fn temp_tag_claims(store: StoreView) -> Seq<HashAndFormat> {
    store.temp_tags.map_values(|tag: TempTagView| tag.claim)
}

/// All that is claimed.
pub open spec fn store_claims(store: StoreView) -> Seq<HashAndFormat> {
    tag_claims(store) + temp_tag_claims(store)
}

/// What the traversals of these collections give, one after the other.
pub open spec fn contents(store: StoreView, roots: Seq<Digest>) -> Seq<Result<Digest, Seq<char>>>
    decreases roots.len(),
{
    if roots.len() == 0 {
        Seq::empty()
    } else {
        contents(store, roots.drop_last()) + (store.collections)(roots.last())
    }
}

/// The members among what traversals gave.
pub open spec fn readable(read: Seq<Result<Digest, Seq<char>>>) -> Seq<Digest> {
    read.filter_map(
        |member: Result<Digest, Seq<char>>|
            match member {
                Ok(hash) => Some(hash),
                Err(_) => None,
            },
    )
}

/// Whether something could not be read.
pub open spec fn broken(read: Seq<Result<Digest, Seq<char>>>) -> bool {
    exists|i: int| 0 <= i < read.len() && (#[trigger] read[i] is Err)
}

/// The members that were read are those of these traversals.
spec fn found<E>(inputs: Seq<CycleInputView<E>>, read: Seq<Result<Digest, Seq<char>>>) -> bool {
    &&& members(inputs) == readable(read)
    &&& unreadable(inputs) == broken(read)
}

/// How far the claims were read.
spec fn claims_read(
    store: StoreView,
    claims: Seq<HashAndFormat>,
    tags: int,
    temp_tags: int,
) -> bool {
    &&& 0 <= tags <= store.tags.len()
    &&& 0 <= temp_tags <= store.temp_tags.len()
    &&& claims == tag_claims(store).take(tags) + temp_tag_claims(store).take(temp_tags)
}

/// How far the blobs were read.
spec fn blobs_read(store: StoreView, listed: Seq<Digest>, n: int) -> bool {
    &&& 0 <= n <= store.blobs.len()
    &&& listed == store.blobs.take(n)
}

/// What a mark phase has seen of the store.
spec fn mark_served<E>(
    store: StoreView,
    mark: MarkState,
    inputs: Seq<CycleInputView<E>>,
    actions: Seq<CycleActionView<E>>,
) -> bool {
    let s = session(actions);
    let all = store.tags.len() as int;
    let roots = opened(actions);
    match mark {
        MarkState::TagsAnnounced => claims_read(store, claims(inputs), 0, 0),
        MarkState::TagsRequested => s.tags == Some(0nat) && claims_read(
            store,
            claims(inputs),
            0,
            0,
        ),
        MarkState::Tags(_) => s.tags matches Some(n) && claims_read(
            store,
            claims(inputs),
            n - 1,
            0,
        ),
        MarkState::TagAdded(_) => s.tags matches Some(n) && claims_read(
            store,
            claims(inputs),
            n as int,
            0,
        ),
        MarkState::TempTagsAnnounced(_) => claims_read(store, claims(inputs), all, 0),
        MarkState::TempTagsRequested(_) => s.temp_tags == Some(0nat) && claims_read(
            store,
            claims(inputs),
            all,
            0,
        ),
        MarkState::TempTags(_) => s.temp_tags matches Some(n) && claims_read(
            store,
            claims(inputs),
            all,
            n - 1,
        ),
        MarkState::TempTagAdded(_) => s.temp_tags matches Some(n) && claims_read(
            store,
            claims(inputs),
            all,
            n as int,
        ),
        MarkState::Opening(root, _) | MarkState::Warned(root, _) | MarkState::Flagged(root, _) => {
            &&& claims(inputs) == store_claims(store)
            &&& s.children matches Some((at, n)) && {
                let members = (store.collections)(root);
                &&& at == root
                &&& 0 <= n <= members.len()
                &&& found(inputs, contents(store, roots.drop_last()) + members.take(n as int))
            }
        },
        MarkState::Children(root, _) => {
            &&& claims(inputs) == store_claims(store)
            &&& s.children matches Some((at, n)) && {
                let members = (store.collections)(root);
                &&& at == root
                &&& 1 <= n <= members.len() + 1
                &&& found(inputs, contents(store, roots.drop_last()) + members.take(n - 1))
            }
        },
        MarkState::Counted => {
            &&& claims(inputs) == store_claims(store)
            &&& found(inputs, contents(store, roots))
        },
        _ => false,
    }
}

/// What a sweep phase has seen of the store.
spec fn sweep_served<E>(
    store: StoreView,
    sweep: SweepState,
    inputs: Seq<CycleInputView<E>>,
    actions: Seq<CycleActionView<E>>,
) -> bool {
    let s = session(actions);
    match sweep {
        SweepState::Requested => s.blobs == Some(0nat) && blobs_read(store, listed(inputs), 0),
        SweepState::Blobs(_, _) => s.blobs matches Some(n) && blobs_read(
            store,
            listed(inputs),
            n - 1,
        ),
        SweepState::Deleting(_) => s.blobs matches Some(n) && blobs_read(
            store,
            listed(inputs),
            n as int,
        ),
        _ => listed(inputs) == store.blobs,
    }
}

/// All that is claimed was seen, and all that was opened was read.
spec fn marked_store<E>(
    store: StoreView,
    inputs: Seq<CycleInputView<E>>,
    actions: Seq<CycleActionView<E>>,
) -> bool {
    &&& claims(inputs) == store_claims(store)
    &&& found(inputs, contents(store, opened(actions)))
}

/// What a served cycle has seen of the store.
spec fn serving<E>(store: StoreView, first: Set<Digest>, inputs: Seq<CycleInputView<E>>) -> bool {
    let run = cycle_run(first, inputs);
    match run.state {
        CycleState::Start | CycleState::Clearing => claims(inputs).len() == 0,
        CycleState::Marking(GcMarkState::Running(mark), _) => mark_served(
            store,
            mark,
            inputs,
            run.actions,
        ),
        CycleState::Sweeping(GcSweepState::Running(sweep)) => {
            &&& marked_store(store, inputs, run.actions)
            &&& sweep_served(store, sweep, inputs, run.actions)
        },
        CycleState::Over => {
            &&& marked_store(store, inputs, run.actions)
            &&& !unreadable(inputs) ==> listed(inputs) == store.blobs
        },
        _ => false,
    }
}

proof fn lemma_read_more<E>(
    before: Seq<CycleInputView<E>>,
    inputs: Seq<CycleInputView<E>>,
    done: Seq<Result<Digest, Seq<char>>>,
    members: Seq<Result<Digest, Seq<char>>>,
    n: int,
)
    requires
        found(before, done + members.take(n)),
        0 <= n < members.len(),
        inputs == before.push(CycleInputView::Mark(MarkInputView::Child(Some(members[n])))),
    ensures
        found(inputs, done + members.take(n + 1)),
{
    let read = done + members.take(n);
    let more = done + members.take(n + 1);
    assert(more =~= read.push(members[n]));
    assert(more.drop_last() =~= read);
    assert(inputs.drop_last() =~= before);
    lemma_history(Set::empty(), inputs);
    assert(more[read.len() as int] == members[n]);
    if broken(read) {
        let i = choose|i: int| 0 <= i < read.len() && (#[trigger] read[i] is Err);
        assert(more[i] is Err);
    }
    if broken(more) {
        let i = choose|i: int| 0 <= i < more.len() && (#[trigger] more[i] is Err);
        assert(i < read.len() ==> read[i] is Err);
    }
}

/// One more claim was read.
proof fn lemma_claim_read(
    store: StoreView,
    before: Seq<HashAndFormat>,
    after: Seq<HashAndFormat>,
    tags: int,
    temp_tags: int,
)
    requires
        claims_read(store, before, tags, temp_tags),
    ensures
        temp_tags == 0 && tags < store.tags.len() && after == before + seq![store.tags[tags].claim]
            ==> claims_read(store, after, tags + 1, 0),
        tags == store.tags.len() && temp_tags < store.temp_tags.len() && after == before + seq![
            store.temp_tags[temp_tags].claim,
        ] ==> claims_read(store, after, tags, temp_tags + 1),
        tags == store.tags.len() && temp_tags == store.temp_tags.len() ==> before == store_claims(
            store,
        ),
{
    if temp_tags == 0 && tags < store.tags.len() && after == before + seq![store.tags[tags].claim] {
        assert(after =~= tag_claims(store).take(tags + 1) + temp_tag_claims(store).take(0));
    }
    if tags == store.tags.len() && temp_tags < store.temp_tags.len() && after == before + seq![
        store.temp_tags[temp_tags].claim,
    ] {
        assert(after =~= tag_claims(store).take(tags) + temp_tag_claims(store).take(temp_tags + 1));
    }
    if tags == store.tags.len() && temp_tags == store.temp_tags.len() {
        assert(before =~= store_claims(store));
    }
}

/// Nothing was read of no collection, and a collection that is read to its end is read.
proof fn lemma_contents<E>(store: StoreView, inputs: Seq<CycleInputView<E>>, roots: Seq<Digest>)
    ensures
        members(inputs).len() == 0 && !unreadable(inputs) ==> found(inputs, Seq::empty()),
        roots.len() > 0 ==> contents(store, roots) == contents(store, roots.drop_last()) + (
        store.collections)(roots.last()).take((store.collections)(roots.last()).len() as int),
{
    let none = Seq::<Result<Digest, Seq<char>>>::empty();
    if members(inputs).len() == 0 && !unreadable(inputs) {
        assert(members(inputs) =~= readable(none));
    }
    if roots.len() > 0 {
        let members = (store.collections)(roots.last());
        assert(members.take(members.len() as int) =~= members);
    }
}

#[verifier::spinoff_prover]
proof fn lemma_mark_served<E>(
    store: StoreView,
    first: Set<Digest>,
    inputs: Seq<CycleInputView<E>>,
    mark: MarkState,
    safe: bool,
)
    requires
        awaited(first, inputs),
        served(store, first, inputs),
        inputs.len() > 0,
        cycle_run(first, inputs.drop_last()).state == CycleState::Marking(
            GcMarkState::Running(mark),
            safe,
        ),
        serving(store, first, inputs.drop_last()),
    ensures
        serving(store, first, inputs),
{
    let before = inputs.drop_last();
    lemma_history(first, inputs);
    lemma_turn(first, inputs);
    let run = cycle_run(first, before);
    let after = cycle_run(first, inputs);
    assert(after.actions.drop_last() =~= run.actions);
    assert(inputs =~= before.push(inputs.last()));
    let s = session(run.actions);
    let p = session(run.actions.drop_last());
    let t = session(after.actions);
    let roots = opened(after.actions);
    lemma_contents(store, inputs, roots);
    lemma_contents(store, inputs, opened(run.actions));
    match mark {
        MarkState::Tags(_) => {
            lemma_claim_read(store, claims(before), claims(inputs), s.tags->0 - 1, 0);
        },
        MarkState::TempTags(_) => {
            lemma_claim_read(
                store,
                claims(before),
                claims(inputs),
                store.tags.len() as int,
                s.temp_tags->0 - 1,
            );
            if inputs.last() == CycleInputView::<E>::Mark(MarkInputView::TempTag(None)) {
                assert(claims(inputs) == store_claims(store));
                assert(opened(run.actions).len() == 0);
                assert(members(inputs).len() == 0 && !unreadable(inputs));
                if let CycleState::Marking(GcMarkState::Running(MarkState::Opening(root, _)), _) =
                    after.state {
                    assert(roots.drop_last() =~= Seq::empty());
                    let members = (store.collections)(root);
                    assert(contents(store, roots.drop_last()) + members.take(0) =~= Seq::empty());
                } else {
                    assert(contents(store, roots) =~= Seq::empty());
                }
            }
        },
        MarkState::Children(root, _) => {
            let (_, asked) = s.children->0;
            let n = asked - 1;
            let done = contents(store, opened(run.actions).drop_last());
            let members = (store.collections)(root);
            if n < members.len() {
                lemma_read_more(before, inputs, done, members, n);
            } else {
                assert(found(inputs, contents(store, opened(run.actions))));
                if let CycleState::Marking(GcMarkState::Running(MarkState::Opening(next, _)), _) =
                    after.state {
                    assert(roots.drop_last() =~= opened(run.actions));
                    let others = (store.collections)(next);
                    assert(contents(store, roots.drop_last()) + others.take(0) =~= contents(
                        store,
                        opened(run.actions),
                    ));
                }
            }
        },
        MarkState::Counted => {
            if after.state is Sweeping {
                assert(listed(inputs) =~= store.blobs.take(0));
            }
        },
        _ => {},
    }
}

proof fn lemma_sweep_served<E>(
    store: StoreView,
    first: Set<Digest>,
    inputs: Seq<CycleInputView<E>>,
    sweep: SweepState,
)
    requires
        awaited(first, inputs),
        served(store, first, inputs),
        inputs.len() > 0,
        cycle_run(first, inputs.drop_last()).state == CycleState::Sweeping(
            GcSweepState::Running(sweep),
        ),
        serving(store, first, inputs.drop_last()),
    ensures
        serving(store, first, inputs),
{
    let before = inputs.drop_last();
    lemma_history(first, inputs);
    lemma_turn(first, inputs);
    let run = cycle_run(first, before);
    let after = cycle_run(first, inputs);
    assert(after.actions.drop_last() =~= run.actions);
    let s = session(run.actions);
    let p = session(run.actions.drop_last());
    let t = session(after.actions);
    match sweep {
        SweepState::Blobs(_, _) => {
            let n = s.blobs->0 - 1;
            if n < store.blobs.len() {
                assert(listed(inputs) =~= store.blobs.take(n + 1));
            } else {
                assert(store.blobs.take(n) =~= store.blobs);
            }
        },
        _ => {},
    }
}

proof fn lemma_serving<E>(store: StoreView, first: Set<Digest>, inputs: Seq<CycleInputView<E>>)
    requires
        awaited(first, inputs),
        served(store, first, inputs),
    ensures
        serving(store, first, inputs),
    decreases inputs.len(),
{
    if inputs.len() > 0 {
        let before = inputs.drop_last();
        lemma_serving(store, first, before);
        lemma_history(first, inputs);
        lemma_turn(first, inputs);
        match cycle_run(first, before).state {
            CycleState::Marking(GcMarkState::Running(mark), safe) => {
                lemma_mark_served(store, first, inputs, mark, safe);
            },
            CycleState::Sweeping(GcSweepState::Running(sweep)) => {
                lemma_sweep_served(store, first, inputs, sweep);
            },
            _ => {
                assert(claims(inputs) =~= tag_claims(store).take(0) + temp_tag_claims(store).take(
                    0,
                ));
            },
        }
    }
}

/// Whether a collection is claimed, and its traversal gives this digest as a member.
pub open spec fn names(store: StoreView, root: Digest, hash: Digest) -> bool {
    &&& store_claims(store).contains(as_collection(root))
    &&& (store.collections)(root).contains(Ok(hash))
}

/// Whether a cycle that begins with this live set has to keep this blob: it is live already, a tag
/// or a temporary tag claims it, or a claimed collection names it.
pub open spec fn kept(store: StoreView, first: Set<Digest>, hash: Digest) -> bool {
    ||| first.contains(hash)
    ||| claimed(store_claims(store), hash)
    ||| exists|root: Digest| #[trigger] names(store, root, hash)
}

/// Whether a claimed collection cannot be read to its end.
pub open spec fn damaged_at(store: StoreView, root: Digest) -> bool {
    &&& store_claims(store).contains(as_collection(root))
    &&& broken((store.collections)(root))
}

/// Whether some claimed collection cannot be read to its end.
pub open spec fn damaged(store: StoreView) -> bool {
    exists|root: Digest| #[trigger] damaged_at(store, root)
}

proof fn lemma_readable(read: Seq<Result<Digest, Seq<char>>>, hash: Digest)
    ensures
        readable(read).contains(hash) <==> read.contains(Ok(hash)),
    decreases read.len(),
{
    if read.len() > 0 {
        let rest = read.drop_last();
        lemma_readable(rest, hash);
        assert(read =~= rest + seq![read.last()]);
        lemma_contains_extended(rest, read.last());
        match read.last() {
            Ok(last) => lemma_contains_extended(readable(rest), last),
            Err(_) => {},
        }
    }
}

proof fn lemma_in_contents(store: StoreView, roots: Seq<Digest>, member: Result<Digest, Seq<char>>)
    ensures
        contents(store, roots).contains(member) <==> exists|i: int|
            0 <= i < roots.len() && (store.collections)(#[trigger] roots[i]).contains(member),
    decreases roots.len(),
{
    if roots.len() > 0 {
        let rest = roots.drop_last();
        let last = (store.collections)(roots.last());
        let done = contents(store, rest);
        let all = contents(store, roots);
        lemma_in_contents(store, rest, member);
        if done.contains(member) {
            let i = choose|i: int| 0 <= i < done.len() && done[i] == member;
            assert(all[i] == member);
            let j = choose|j: int|
                0 <= j < rest.len() && (store.collections)(#[trigger] rest[j]).contains(member);
            assert((store.collections)(roots[j]).contains(member));
        }
        if last.contains(member) {
            let i = choose|i: int| 0 <= i < last.len() && last[i] == member;
            assert(all[done.len() + i] == member);
            assert((store.collections)(roots[roots.len() - 1]).contains(member));
        }
        if all.contains(member) {
            let i = choose|i: int| 0 <= i < all.len() && all[i] == member;
            assert(i < done.len() ==> done[i] == member);
            assert(i >= done.len() ==> last[i - done.len()] == member);
        }
        if exists|i: int|
            0 <= i < roots.len() && (store.collections)(#[trigger] roots[i]).contains(member) {
            let i = choose|i: int|
                0 <= i < roots.len() && (store.collections)(#[trigger] roots[i]).contains(member);
            assert(i < rest.len() ==> (store.collections)(rest[i]).contains(member));
        }
    }
}

/// A successful cycle on a store that answers as its contents have it has seen every tag and every
/// temporary tag. It has made live what has to be kept, and nothing else. Where every claimed
/// collection could be read, it has asked for the deletion of all other blobs of the store, in the
/// order of the listing, and of no blob besides; where not, of none.
pub proof fn law_store_is_collected<E>(
    store: StoreView,
    first: Set<Digest>,
    inputs: Seq<CycleInputView<E>>,
)
    requires
        served(store, first, inputs),
        succeeded(first, inputs),
    ensures
        ({
            let run = cycle_run(first, inputs);
            &&& claims(inputs) == store_claims(store)
            &&& forall|hash: Digest| #[trigger]
                run.live.contains(hash) <==> kept(store, first, hash)
            &&& batches(run.actions).flatten() == if damaged(store) {
                Seq::empty()
            } else {
                store.blobs.filter(|hash: Digest| !kept(store, first, hash))
            }
            &&& damaged(store) <==> unswept(run.actions)
        }),
{
    lemma_serving(store, first, inputs);
    lemma_cycle_inv(first, inputs);
    lemma_return(first, inputs);
    law_live_set_is_exact(first, inputs);
    law_every_collection_is_traversed(first, inputs);
    let run = cycle_run(first, inputs);
    let roots = opened(run.actions);
    let read = contents(store, roots);
    assert forall|hash: Digest| #[trigger] run.live.contains(hash) <==> kept(
        store,
        first,
        hash,
    ) by {
        lemma_readable(read, hash);
        lemma_in_contents(store, roots, Ok(hash));
        if members(inputs).contains(hash) {
            let i = choose|i: int|
                0 <= i < roots.len() && (store.collections)(#[trigger] roots[i]).contains(Ok(hash));
            assert(roots.contains(roots[i]));
            assert(names(store, roots[i], hash));
        }
        if exists|root: Digest| #[trigger] names(store, root, hash) {
            let root = choose|root: Digest| #[trigger] names(store, root, hash);
            assert(roots.contains(root));
            let i = choose|i: int| 0 <= i < roots.len() && roots[i] == root;
            assert((store.collections)(roots[i]).contains(Ok(hash)));
        }
    }
    assert(damaged(store) <==> broken(read)) by {
        if broken(read) {
            let i = choose|i: int| 0 <= i < read.len() && (#[trigger] read[i] is Err);
            assert(read.contains(read[i]));
            lemma_in_contents(store, roots, read[i]);
            let j = choose|j: int|
                0 <= j < roots.len() && (store.collections)(#[trigger] roots[j]).contains(read[i]);
            let members = (store.collections)(roots[j]);
            let k = choose|k: int| 0 <= k < members.len() && members[k] == read[i];
            assert(members[k] is Err);
            assert(roots.contains(roots[j]));
            assert(damaged_at(store, roots[j]));
        }
        if damaged(store) {
            let root = choose|root: Digest| #[trigger] damaged_at(store, root);
            let members = (store.collections)(root);
            let k = choose|k: int| 0 <= k < members.len() && (#[trigger] members[k] is Err);
            assert(roots.contains(root));
            let j = choose|j: int| 0 <= j < roots.len() && roots[j] == root;
            assert((store.collections)(roots[j]).contains(members[k]));
            lemma_in_contents(store, roots, members[k]);
            let i = choose|i: int| 0 <= i < read.len() && read[i] == members[k];
            assert(read[i] is Err);
        }
    }
    if unreadable(inputs) {
        assert(batches(run.actions) =~= Seq::empty());
        assert(batches(run.actions).flatten() =~= Seq::<Digest>::empty());
    } else {
        let dead = |hash: Digest| !run.live.contains(hash);
        let dropped = |hash: Digest| !kept(store, first, hash);
        assert(dead =~= dropped);
    }
}

/// A cycle on a store that answers as its contents have it awaits each answer, as long as the
/// blobs of the store can be counted.
pub proof fn law_store_is_listened_to<E>(
    store: StoreView,
    first: Set<Digest>,
    inputs: Seq<CycleInputView<E>>,
)
    requires
        awaited(first, inputs),
        served(store, first, inputs),
        inputs.len() > 0 ==> !(cycle_run(first, inputs).actions.last() is Return),
        store.blobs.len() < u64::MAX,
    ensures
        awaited(first, inputs.push(reply(store, cycle_run(first, inputs).actions))),
        served(store, first, inputs.push(reply(store, cycle_run(first, inputs).actions))),
{
    let run = cycle_run(first, inputs);
    let next = reply(store, run.actions);
    assert(inputs.push(next).drop_last() =~= inputs);
    lemma_serving(store, first, inputs);
    lemma_cycle_inv(first, inputs);
    if inputs.len() > 0 {
        lemma_turn(first, inputs);
        lemma_return(first, inputs);
        law_every_answer_is_awaited(first, inputs, next);
    }
}

/// Going on with the roots leaves fewer of them.
proof fn lemma_visit_shrinks<E>(live: Set<Digest>, rest: Seq<HashAndFormat>)
    ensures
        visit::<E>(live, rest).state matches MarkState::Opening(_, left) ==> left.len()
            < rest.len(),
    decreases rest.len(),
{
    if rest.len() > 0 {
        lemma_visit_shrinks::<E>(live.insert(rest.last().hash), rest.drop_last());
    }
}

/// Which part of a cycle goes on; it only goes down.
spec fn part(state: CycleState) -> nat {
    match state {
        CycleState::Start => 12,
        CycleState::Clearing => 11,
        CycleState::Marking(GcMarkState::Running(mark), _) => match mark {
            MarkState::Start | MarkState::TagsAnnounced => 10,
            MarkState::TagsRequested => 9,
            MarkState::Tags(_) | MarkState::TagAdded(_) => 8,
            MarkState::TempTagsAnnounced(_) => 7,
            MarkState::TempTagsRequested(_) => 6,
            MarkState::TempTags(_) | MarkState::TempTagAdded(_) => 5,
            MarkState::Opening(_, _)
            | MarkState::Children(_, _)
            | MarkState::Warned(_, _)
            | MarkState::Flagged(_, _) => 4,
            MarkState::Counted | MarkState::Finished => 3,
        },
        CycleState::Sweeping(GcSweepState::Running(sweep)) => match sweep {
            SweepState::Start | SweepState::Requested => 2,
            SweepState::Blobs(_, _) | SweepState::Deleting(_) => 1,
            _ => 0,
        },
        _ => 0,
    }
}

/// How many collections are still to be opened.
spec fn unopened(state: CycleState) -> nat {
    match state {
        CycleState::Marking(GcMarkState::Running(mark), _) => match mark {
            MarkState::Opening(_, rest)
            | MarkState::Children(_, rest)
            | MarkState::Warned(_, rest)
            | MarkState::Flagged(_, rest) => rest.len(),
            _ => 0,
        },
        _ => 0,
    }
}

/// How many items are left of what is read.
spec fn unread<E>(
    store: StoreView,
    state: CycleState,
    inputs: Seq<CycleInputView<E>>,
    s: Session,
) -> int {
    match state {
        CycleState::Marking(GcMarkState::Running(mark), _) => match mark {
            MarkState::Tags(_)
            | MarkState::TagAdded(_)
            | MarkState::TempTags(_)
            | MarkState::TempTagAdded(_) => store.tags.len() + store.temp_tags.len() - claims(
                inputs,
            ).len(),
            MarkState::Opening(root, _)
            | MarkState::Warned(root, _)
            | MarkState::Flagged(root, _) => {
                let (_, asked) = s.children->0;
                (store.collections)(root).len() - asked
            },
            MarkState::Children(root, _) => {
                let (_, asked) = s.children->0;
                (store.collections)(root).len() + 1 - asked
            },
            _ => 0,
        },
        CycleState::Sweeping(GcSweepState::Running(sweep)) => match sweep {
            SweepState::Blobs(_, _) | SweepState::Deleting(_) => store.blobs.len() - listed(
                inputs,
            ).len(),
            _ => 0,
        },
        _ => 0,
    }
}

/// How many steps are left until the next item is asked for.
spec fn pause(state: CycleState) -> nat {
    match state {
        CycleState::Marking(GcMarkState::Running(mark), _) => match mark {
            MarkState::TagAdded(_)
            | MarkState::TempTagAdded(_)
            | MarkState::Opening(_, _)
            | MarkState::Flagged(_, _) => 1,
            MarkState::Warned(_, _) => 2,
            _ => 0,
        },
        CycleState::Sweeping(GcSweepState::Running(sweep)) => match sweep {
            SweepState::Deleting(_) => 1,
            SweepState::DeletingLast(_) => 3,
            SweepState::Syncing(_) => 2,
            SweepState::Counted => 1,
            _ => 0,
        },
        _ => 0,
    }
}

proof fn lemma_completes<E>(
    store: StoreView,
    first: Set<Digest>,
    inputs: Seq<CycleInputView<E>>,
) -> (all: Seq<CycleInputView<E>>)
    requires
        awaited(first, inputs),
        served(store, first, inputs),
        store.blobs.len() < u64::MAX,
    ensures
        served(store, first, all),
        succeeded(first, all),
    decreases
            part(cycle_run(first, inputs).state),
            unopened(cycle_run(first, inputs).state),
            unread(
                store,
                cycle_run(first, inputs).state,
                inputs,
                session(cycle_run(first, inputs).actions),
            ),
            pause(cycle_run(first, inputs).state),
{
    let run = cycle_run(first, inputs);
    lemma_serving(store, first, inputs);
    lemma_cycle_inv(first, inputs);
    if inputs.len() > 0 {
        lemma_return(first, inputs);
        lemma_turn(first, inputs);
    }
    if run.state is Over {
        inputs
    } else {
        let longer = inputs.push(reply(store, run.actions));
        assert(longer.drop_last() =~= inputs);
        law_store_is_listened_to(store, first, inputs);
        lemma_serving(store, first, longer);
        lemma_history(first, longer);
        lemma_turn(first, longer);
        let after = cycle_run(first, longer);
        assert(after.actions.drop_last() =~= run.actions);
        match run.state {
            CycleState::Marking(GcMarkState::Running(MarkState::TempTags(rest)), _) => {
                lemma_visit_shrinks::<E>(run.live, rest);
            },
            CycleState::Marking(GcMarkState::Running(MarkState::Children(_, rest)), _) => {
                lemma_visit_shrinks::<E>(run.live, rest);
            },
            _ => {},
        }
        lemma_completes(store, first, longer)
    }
}

/// Every cycle on a store that answers as its contents have it comes to its end, and succeeds, if
/// the blobs of the store can be counted.
pub proof fn law_cycle_comes_to_its_end<E>(store: StoreView, first: Set<Digest>)
    requires
        store.blobs.len() < u64::MAX,
    ensures
        exists|inputs: Seq<CycleInputView<E>>| #[trigger]
            served(store, first, inputs) && succeeded(first, inputs),
{
    let inputs = lemma_completes(store, first, Seq::<CycleInputView<E>>::empty());
    assert(served(store, first, inputs) && succeeded(first, inputs));
}

} // verus!
