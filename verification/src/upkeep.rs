//! What holds at every point of a cycle.

use vstd::prelude::*;
use crate::cycle::{cycle_step, CycleActionView, CycleInputView, CycleState};
use crate::digest::{BlobFormat, Digest, HashAndFormat};
use crate::event::{MarkEventView, SweepEventView};
use crate::history::{
    as_collection, awaited, batch_of, batches, blobs_listed, claim_of, claimed, claims, cycle_run,
    dead, each_opened_once, end_of, ends, failure_of, incomplete, is_incomplete, is_unreadable,
    listed, listed_by, mark_claim, mark_end, mark_failure, mark_member, mark_opened,
    mark_unreadable, marked, member_of, members, opened, opened_by, packed, sweep_batch,
    sweep_failure, sweep_listed, tags_listed, temp_tags_listed, unreadable, unswept,
};
use crate::mark::{mark_step, visit, GcMarkState, MarkActionView, MarkInputView, MarkState};
use crate::set::with_claim;
use crate::sweep::{
    deleted_note, sweep_step, GcSweepState, SweepActionView, SweepInput, SweepState, BATCH_SIZE,
};
use crate::text::decimal;

verus! {

/// A sequence with one more element, if there is one.
pub open spec fn extended<A>(s: Seq<A>, next: Option<A>) -> Seq<A> {
    match next {
        Some(a) => s + seq![a],
        None => s,
    }
}

/// What the mark phase has seen.
pub struct Marking {
    pub first: Set<Digest>,
    pub live: Set<Digest>,
    pub claims: Seq<HashAndFormat>,
    pub members: Seq<Digest>,
    pub unreadable: bool,
    pub opened: Seq<Digest>,
    pub safe: bool,
    pub tags: bool,
    pub temp_tags: bool,
    pub ends: Seq<()>,
}

/// No root was visited yet.
pub open spec fn collecting(m: Marking) -> bool {
    &&& m.live == m.first
    &&& m.members.len() == 0
    &&& !m.unreadable
    &&& m.opened.len() == 0
    &&& m.safe
}

/// The roots are the claims, without repetition.
pub open spec fn gathered(roots: Seq<HashAndFormat>, m: Marking) -> bool {
    &&& roots.no_duplicates()
    &&& forall|c: HashAndFormat| #[trigger] roots.contains(c) <==> m.claims.contains(c)
}

/// A claim of this digest is not among the rest.
pub open spec fn visited(claims: Seq<HashAndFormat>, rest: Seq<HashAndFormat>, h: Digest) -> bool {
    exists|c: HashAndFormat| #[trigger] claims.contains(c) && !rest.contains(c) && c.hash == h
}

/// All roots but the rest were visited.
pub open spec fn visiting(rest: Seq<HashAndFormat>, m: Marking) -> bool {
    &&& rest.no_duplicates()
    &&& forall|c: HashAndFormat| #[trigger] rest.contains(c) ==> m.claims.contains(c)
    &&& forall|h: Digest| #[trigger]
        m.live.contains(h) <==> m.first.contains(h) || m.members.contains(h) || visited(
            m.claims,
            rest,
            h,
        )
    &&& m.opened.no_duplicates()
    &&& forall|h: Digest| #[trigger]
        m.opened.contains(h) <==> m.claims.contains(as_collection(h)) && !rest.contains(
            as_collection(h),
        )
}

/// What was listed and read to its end.
pub open spec fn mark_progress(state: MarkState, m: Marking) -> bool {
    match state {
        MarkState::TempTagsAnnounced(_)
        | MarkState::TempTagsRequested(_)
        | MarkState::TempTags(_)
        | MarkState::TempTagAdded(_) => m.tags && m.ends.len() == m.opened.len(),
        MarkState::Opening(_, _)
        | MarkState::Children(_, _)
        | MarkState::Warned(_, _)
        | MarkState::Flagged(_, _) => m.tags && m.temp_tags && m.ends.len() + 1 == m.opened.len(),
        MarkState::Counted => m.tags && m.temp_tags && m.ends.len() == m.opened.len(),
        _ => m.ends.len() == m.opened.len(),
    }
}

/// All there is was listed and read to its end.
pub open spec fn exhausted(m: Marking) -> bool {
    m.tags && m.temp_tags && m.ends.len() == m.opened.len()
}

/// What holds of the mark phase.
pub open spec fn mark_inv(state: MarkState, m: Marking) -> bool {
    mark_progress(state, m) && match state {
        MarkState::TagsAnnounced | MarkState::TagsRequested => collecting(m) && m.claims.len() == 0,
        MarkState::Tags(roots)
        | MarkState::TagAdded(roots)
        | MarkState::TempTagsAnnounced(roots)
        | MarkState::TempTagsRequested(roots)
        | MarkState::TempTags(roots)
        | MarkState::TempTagAdded(roots) => collecting(m) && gathered(roots, m),
        MarkState::Opening(_, rest) | MarkState::Children(_, rest) | MarkState::Flagged(_, rest) => {
            visiting(rest, m) && m.unreadable == !m.safe
        },
        MarkState::Warned(_, rest) => visiting(rest, m) && m.unreadable,
        MarkState::Counted => visiting(Seq::empty(), m) && m.unreadable == !m.safe,
        MarkState::Start | MarkState::Finished => false,
    }
}

/// What the mark phase has seen after one more input and the action that answers it.
pub open spec fn after_input<E>(
    m: Marking,
    live: Set<Digest>,
    input: MarkInputView<E>,
    action: MarkActionView<E>,
) -> Marking {
    Marking {
        first: m.first,
        live,
        claims: extended(m.claims, mark_claim(input)),
        members: extended(m.members, mark_member(input)),
        unreadable: m.unreadable || mark_unreadable(input),
        opened: extended(m.opened, mark_opened(action)),
        safe: m.safe && !(action matches MarkActionView::Yield(event)
            && event is TraversalIncomplete),
        tags: m.tags || input == MarkInputView::<E>::Tag(None),
        temp_tags: m.temp_tags || input == MarkInputView::<E>::TempTag(None),
        ends: extended(m.ends, mark_end(input)),
    }
}

pub proof fn lemma_contains_extended<A>(s: Seq<A>, a: A)
    ensures
        forall|x: A| #[trigger] (s + seq![a]).contains(x) <==> s.contains(x) || x == a,
{
    assert forall|x: A| #[trigger] (s + seq![a]).contains(x) <==> s.contains(x) || x == a by {
        if s.contains(x) {
            let i = choose|i: int| 0 <= i < s.len() && s[i] == x;
            assert((s + seq![a])[i] == x);
        }
        assert((s + seq![a])[s.len() as int] == a);
    }
}

proof fn lemma_with_claim(roots: Seq<HashAndFormat>, m: Marking, claim: HashAndFormat)
    requires
        gathered(roots, m),
    ensures
        gathered(
            with_claim(roots, claim),
            Marking { claims: m.claims + seq![claim], ..m },
        ),
{
    lemma_contains_extended(m.claims, claim);
    lemma_contains_extended(roots, claim);
    assert(roots.push(claim) =~= roots + seq![claim]);
}

proof fn lemma_visit<E>(rest: Seq<HashAndFormat>, m: Marking)
    requires
        visiting(rest, m),
        m.unreadable == !m.safe,
        exhausted(m),
    ensures
        ({
            let step = visit::<E>(m.live, rest);
            let n = Marking {
                live: step.live,
                opened: extended(m.opened, mark_opened(step.action)),
                ..m
            };
            &&& mark_inv(step.state, n)
            &&& !(step.action is Return)
            &&& !(step.action matches MarkActionView::Yield(event) && (event is TraversalIncomplete
                || event is Error))
            &&& step.state is Counted || step.state is Opening
        }),
    decreases rest.len(),
{
    if rest.len() == 0 {
        assert(rest =~= Seq::empty());
    } else {
        let root = rest.last();
        let others = rest.drop_last();
        assert(rest =~= others + seq![root]);
        lemma_contains_extended(others, root);
        assert(rest.contains(root) && !others.contains(root));
        assert(others.no_duplicates());
        assert forall|c: HashAndFormat| #[trigger] others.contains(c) implies m.claims.contains(
            c,
        ) by {
            assert(rest.contains(c));
        }
        let live = m.live.insert(root.hash);
        assert forall|h: Digest| #[trigger] visited(m.claims, others, h) <==> visited(
            m.claims,
            rest,
            h,
        ) || h == root.hash by {
            if h == root.hash {
                assert(m.claims.contains(root));
            }
            if visited(m.claims, rest, h) {
                let c = choose|c: HashAndFormat| #[trigger]
                    m.claims.contains(c) && !rest.contains(c) && c.hash == h;
                assert(!others.contains(c));
            }
            if visited(m.claims, others, h) {
                let c = choose|c: HashAndFormat| #[trigger]
                    m.claims.contains(c) && !others.contains(c) && c.hash == h;
                assert(c == root || !rest.contains(c));
            }
        }
        match root.format {
            BlobFormat::Raw => {
                lemma_visit::<E>(others, Marking { live, ..m });
            },
            BlobFormat::HashSeq => {
                assert(root == as_collection(root.hash));
                lemma_contains_extended(m.opened, root.hash);
                assert(!m.opened.contains(root.hash));
            },
        }
    }
}

/// One step of the mark phase keeps the invariant, and the phase ends as it should.
proof fn lemma_mark_step<E>(state: MarkState, m: Marking, input: MarkInputView<E>)
    requires
        mark_inv(state, m),
        state.accepts(input),
    ensures
        ({
            let step = mark_step(state, m.live, input);
            let n = after_input(m, step.live, input, step.action);
            match step.action {
                MarkActionView::Return(Ok(_)) => {
                    &&& visiting(Seq::empty(), n)
                    &&& exhausted(n)
                    &&& n.unreadable == !n.safe
                    &&& mark_failure(input) is None
                },
                MarkActionView::Return(Err(error)) => {
                    &&& collecting(n)
                    &&& mark_failure(input) == Some(error)
                },
                MarkActionView::Yield(MarkEventView::Error(_)) => false,
                _ => mark_inv(step.state, n) && mark_failure(input) is None,
            }
        }),
{
    match (state, input) {
        (MarkState::Tags(roots), MarkInputView::Tag(Some(Ok(tag)))) => {
            lemma_with_claim(roots, m, tag.claim);
        },
        (MarkState::TempTags(roots), MarkInputView::TempTag(Some(tag))) => {
            lemma_with_claim(roots, m, tag.claim);
        },
        (MarkState::TempTags(roots), MarkInputView::TempTag(None)) => {
            assert(visiting(roots, m));
            lemma_visit::<E>(roots, Marking { temp_tags: true, ..m });
        },
        (MarkState::Children(_, rest), MarkInputView::Child(Some(Ok(child)))) => {
            lemma_contains_extended(m.members, child);
        },
        (MarkState::Children(_, rest), MarkInputView::Child(None)) => {
            lemma_visit::<E>(rest, Marking { ends: m.ends + seq![()], ..m });
        },
        _ => {},
    }
}

/// All the batches are full.
pub open spec fn full(batches: Seq<Seq<Digest>>) -> bool {
    forall|i: int|
        #![trigger batches[i]]
        0 <= i < batches.len() ==> batches[i].len() == BATCH_SIZE
}

/// What holds of the sweep phase.
pub open spec fn sweep_inv(
    state: SweepState,
    live: Set<Digest>,
    listed: Seq<Digest>,
    batches: Seq<Seq<Digest>>,
) -> bool {
    let chosen = dead(listed, live);
    match state {
        SweepState::Requested => listed.len() == 0 && batches.len() == 0,
        SweepState::Blobs(batch, count) => {
            &&& batches.flatten() + batch == chosen
            &&& batch.len() < BATCH_SIZE
            &&& full(batches)
            &&& count == chosen.len()
        },
        SweepState::Deleting(count) => {
            &&& batches.flatten() == chosen
            &&& full(batches)
            &&& count == chosen.len()
        },
        SweepState::DeletingLast(count) | SweepState::Syncing(count) => {
            &&& batches.flatten() == chosen
            &&& packed(batches)
            &&& count == chosen.len()
        },
        SweepState::Counted => batches.flatten() == chosen && packed(batches),
        SweepState::Start | SweepState::Finished => false,
    }
}

/// The deletions that were asked for so far are the first of those that are due.
pub open spec fn deleting(
    live: Set<Digest>,
    listed: Seq<Digest>,
    batches: Seq<Seq<Digest>>,
) -> bool {
    &&& batches.flatten().is_prefix_of(dead(listed, live))
    &&& packed(batches)
}

proof fn lemma_sweep_inv_deleting(
    state: SweepState,
    live: Set<Digest>,
    listed: Seq<Digest>,
    batches: Seq<Seq<Digest>>,
)
    requires
        sweep_inv(state, live, listed, batches),
    ensures
        deleting(live, listed, batches),
{
    if state is Requested {
        assert(batches =~= Seq::empty());
        assert(batches.flatten() =~= Seq::<Digest>::empty());
    }
}

/// One step of the sweep phase keeps the invariant, and the phase ends as it should.
proof fn lemma_sweep_step<E>(
    state: SweepState,
    live: Set<Digest>,
    listed: Seq<Digest>,
    batches: Seq<Seq<Digest>>,
    input: SweepInput<E>,
)
    requires
        sweep_inv(state, live, listed, batches),
        state.accepts(input),
    ensures
        ({
            let step = sweep_step(state, live, input);
            let listed2 = extended(listed, sweep_listed(input));
            let batches2 = extended(batches, sweep_batch(step.action));
            match step.action {
                SweepActionView::Return(Ok(_)) => {
                    &&& state is Counted
                    &&& batches2.flatten() == dead(listed2, live)
                    &&& packed(batches2)
                    &&& sweep_failure(input) is None
                },
                SweepActionView::Return(Err(error)) => {
                    &&& deleting(live, listed2, batches2)
                    &&& sweep_failure(input) == Some(error)
                },
                SweepActionView::Yield(SweepEventView::Error(_)) => false,
                _ => sweep_inv(step.state, live, listed2, batches2) && sweep_failure(input) is None,
            }
        }),
{
    lemma_sweep_inv_deleting(state, live, listed, batches);
    let step = sweep_step(state, live, input);
    let pred = |hash: Digest| !live.contains(hash);
    match (state, input) {
        (SweepState::Requested, _) => {
            assert(batches =~= Seq::empty());
            assert(listed =~= Seq::empty());
            assert(dead(listed, live) =~= Seq::empty()) by {
                reveal(Seq::filter);
            }
            assert(batches.flatten() + Seq::<Digest>::empty() =~= Seq::<Digest>::empty());
        },
        (SweepState::Blobs(batch, count), SweepInput::Blob(Some(Ok(hash)))) => {
            assert(listed + seq![hash] =~= listed.push(hash));
            listed.lemma_filter_push(hash, pred);
            if !live.contains(hash) {
                assert(dead(listed.push(hash), live) == dead(listed, live).push(hash));
                assert(batches.flatten() + batch.push(hash) =~= (batches.flatten() + batch).push(
                    hash,
                ));
                if batch.len() + 1 >= BATCH_SIZE {
                    assert(batches + seq![batch.push(hash)] =~= batches.push(batch.push(hash)));
                    batches.lemma_flatten_push(batch.push(hash));
                }
            }
        },
        (SweepState::Blobs(batch, count), SweepInput::Blob(None)) => {
            if batch.len() > 0 {
                assert(batches + seq![batch] =~= batches.push(batch));
                batches.lemma_flatten_push(batch);
            } else {
                assert(batches.flatten() + batch =~= batches.flatten());
            }
        },
        (SweepState::Deleting(_), _) => {
            assert(batches.flatten() + Seq::<Digest>::empty() =~= batches.flatten());
        },
        _ => {},
    }
}

/// What the mark phase of a cycle has seen.
pub open spec fn seen<E>(first: Set<Digest>, inputs: Seq<CycleInputView<E>>, safe: bool) -> Marking {
    let run = cycle_run(first, inputs);
    Marking {
        first,
        live: run.live,
        claims: claims(inputs),
        members: members(inputs),
        unreadable: unreadable(inputs),
        opened: opened(run.actions),
        safe,
        tags: tags_listed(inputs),
        temp_tags: temp_tags_listed(inputs),
        ends: ends(inputs),
    }
}

/// No sweep began.
pub open spec fn sweepless<E>(first: Set<Digest>, inputs: Seq<CycleInputView<E>>) -> bool {
    let actions = cycle_run(first, inputs).actions;
    &&& unswept(actions)
    &&& listed(inputs).len() == 0
    &&& batches(actions).len() == 0
}

/// A sweep began, after a mark that saw everything.
pub open spec fn sweeping<E>(first: Set<Digest>, inputs: Seq<CycleInputView<E>>) -> bool {
    &&& !unswept(cycle_run(first, inputs).actions)
    &&& visiting(Seq::empty(), seen(first, inputs, true))
    &&& exhausted(seen(first, inputs, true))
    &&& !unreadable(inputs)
}

/// The last actions of a sweep phase that is about to end.
pub open spec fn ending<E>(
    state: SweepState,
    actions: Seq<CycleActionView<E>>,
    count: nat,
) -> bool {
    match state {
        SweepState::Syncing(_) => actions.last() == CycleActionView::<E>::Sweep(
            SweepActionView::SyncDb,
        ),
        SweepState::Counted => {
            &&& actions.len() >= 2
            &&& actions[actions.len() - 2] == CycleActionView::<E>::Sweep(SweepActionView::SyncDb)
            &&& actions.last() == CycleActionView::<E>::Sweep(deleted_note(count as u64))
        },
        _ => true,
    }
}

/// The last actions of a cycle that swept, and the end of it.
pub open spec fn ended<E>(actions: Seq<CycleActionView<E>>, count: nat) -> bool {
    &&& actions.len() >= 3
    &&& actions[actions.len() - 3] == CycleActionView::<E>::Sweep(SweepActionView::SyncDb)
    &&& actions[actions.len() - 2] == CycleActionView::<E>::Sweep(deleted_note(count as u64))
}

/// What holds of a cycle.
pub open spec fn cycle_inv<E>(first: Set<Digest>, inputs: Seq<CycleInputView<E>>) -> bool {
    let run = cycle_run(first, inputs);
    let listing = listed(inputs);
    let deletions = batches(run.actions);
    &&& run.actions.len() == inputs.len()
    &&& match run.state {
        CycleState::Start => inputs.len() == 0,
        CycleState::Clearing => {
            &&& inputs.len() > 0
            &&& run.actions.last() is ClearProtected
            &&& sweepless(first, inputs)
            &&& collecting(seen(first, inputs, true))
            &&& !incomplete(run.actions)
            &&& claims(inputs).len() == 0
            &&& ends(inputs).len() == 0
        },
        CycleState::Marking(GcMarkState::Running(mark), safe) => {
            &&& inputs.len() > 0
            &&& sweepless(first, inputs)
            &&& mark_inv(mark, seen(first, inputs, safe))
            &&& incomplete(run.actions) == !safe
        },
        CycleState::Sweeping(GcSweepState::Running(sweep)) => {
            &&& inputs.len() > 0
            &&& sweeping(first, inputs)
            &&& !incomplete(run.actions)
            &&& sweep_inv(sweep, run.live, listing, deletions)
            &&& ending(sweep, run.actions, dead(listing, run.live).len())
            &&& sweep is DeletingLast || sweep is Syncing || sweep is Counted ==> blobs_listed(
                inputs,
            )
        },
        CycleState::Over => {
            &&& inputs.len() > 0
            &&& match run.actions.last() {
                CycleActionView::Return(Ok(_)) => {
                    &&& visiting(Seq::empty(), seen(first, inputs, true))
                    &&& exhausted(seen(first, inputs, true))
                    &&& failure_of(inputs.last()) is None
                    &&& incomplete(run.actions) == unreadable(inputs)
                    &&& if unreadable(inputs) {
                        sweepless(first, inputs)
                    } else {
                        &&& sweeping(first, inputs)
                        &&& deletions.flatten() == dead(listing, run.live)
                        &&& packed(deletions)
                        &&& blobs_listed(inputs)
                        &&& ended(run.actions, dead(listing, run.live).len())
                    }
                },
                CycleActionView::Return(Err(error)) => {
                    &&& failure_of(inputs.last()) == Some(error)
                    &&& {
                        ||| sweepless(first, inputs) && collecting(seen(first, inputs, true))
                        ||| sweeping(first, inputs) && deleting(run.live, listing, deletions)
                    }
                },
                _ => false,
            }
        },
        _ => false,
    }
}

/// How the history of a cycle grows with one more input.
pub proof fn lemma_history<E>(first: Set<Digest>, inputs: Seq<CycleInputView<E>>)
    requires
        inputs.len() > 0,
    ensures
        ({
            let before = inputs.drop_last();
            let run = cycle_run(first, before);
            let input = inputs.last();
            let step = cycle_step(run.state, run.live, input);
            let after = cycle_run(first, inputs);
            &&& after.state == step.state
            &&& after.live == step.live
            &&& after.actions == run.actions.push(step.action)
            &&& claims(inputs) == extended(claims(before), claim_of(input))
            &&& members(inputs) == extended(members(before), member_of(input))
            &&& unreadable(inputs) == (unreadable(before) || is_unreadable(input))
            &&& ends(inputs) == extended(ends(before), end_of(input))
            &&& forall|x: CycleInputView<E>| #[trigger]
                inputs.contains(x) <==> before.contains(x) || x == input
            &&& listed(inputs) == extended(listed(before), listed_by(input))
            &&& opened(after.actions) == extended(opened(run.actions), opened_by(step.action))
            &&& batches(after.actions) == extended(batches(run.actions), batch_of(step.action))
            &&& unswept(after.actions) == (unswept(run.actions) && !(step.action is Sweep))
            &&& incomplete(after.actions) == (incomplete(run.actions) || is_incomplete(
                step.action,
            ))
        }),
{
    let before = inputs.drop_last();
    let run = cycle_run(first, before);
    let input = inputs.last();
    let step = cycle_step(run.state, run.live, input);
    let actions = run.actions.push(step.action);
    assert(actions.drop_last() =~= run.actions);
    assert(inputs =~= before + seq![input]);
    lemma_contains_extended(before, input);
    if unreadable(before) {
        let i = choose|i: int| 0 <= i < before.len() && is_unreadable(#[trigger] before[i]);
        assert(is_unreadable(inputs[i]));
    }
    if unreadable(inputs) {
        let i = choose|i: int| 0 <= i < inputs.len() && is_unreadable(#[trigger] inputs[i]);
        if i < before.len() {
            assert(is_unreadable(before[i]));
        }
    }
    assert(unswept(actions) ==> unswept(run.actions)) by {
        if unswept(actions) {
            assert forall|i: int| 0 <= i < run.actions.len() implies !(
                #[trigger] run.actions[i] is Sweep) by {
                assert(!(actions[i] is Sweep));
            }
        }
    }
    assert(actions[run.actions.len() as int] == step.action);
    if incomplete(run.actions) {
        let i = choose|i: int|
            0 <= i < run.actions.len() && is_incomplete(#[trigger] run.actions[i]);
        assert(is_incomplete(actions[i]));
    }
    if incomplete(actions) {
        let i = choose|i: int| 0 <= i < actions.len() && is_incomplete(#[trigger] actions[i]);
        if i < run.actions.len() {
            assert(is_incomplete(run.actions[i]));
        }
    }
}

/// The invariant holds at every point of a cycle.
pub proof fn lemma_cycle_inv<E>(first: Set<Digest>, inputs: Seq<CycleInputView<E>>)
    requires
        awaited(first, inputs),
    ensures
        cycle_inv(first, inputs),
    decreases inputs.len(),
{
    if inputs.len() > 0 {
        let before = inputs.drop_last();
        lemma_cycle_inv(first, before);
        lemma_history(first, inputs);
        let run = cycle_run(first, before);
        let input = inputs.last();
        match (run.state, input) {
            (CycleState::Start, _) => {
                assert(before =~= Seq::empty());
            },
            (
                CycleState::Marking(GcMarkState::Running(mark), safe),
                CycleInputView::Mark(answer),
            ) => {
                let m = seen(first, before, safe);
                lemma_mark_step(mark, m, answer);
                let step = mark_step(mark, m.live, answer);
                let n = after_input(m, step.live, answer, step.action);
                assert(opened_by(cycle_step(run.state, run.live, input).action) == mark_opened(
                    step.action,
                ));
                assert(n == seen(first, inputs, n.safe));
                assert(Marking { safe: true, ..n } == seen(first, inputs, true));
            },
            (CycleState::Sweeping(GcSweepState::Running(sweep)), CycleInputView::Sweep(answer)) => {
                let listing = listed(before);
                let deletions = batches(run.actions);
                lemma_sweep_step(sweep, run.live, listing, deletions, answer);
                assert(seen(first, before, true) == seen(first, inputs, true));
            },
            _ => {},
        }
    }
}

/// The deletions that were asked for at any point are the first of those that are due, and where
/// there are any, the mark saw everything.
pub proof fn lemma_deletions_are_dead<E>(first: Set<Digest>, inputs: Seq<CycleInputView<E>>)
    requires
        awaited(first, inputs),
    ensures
        deleting(
            cycle_run(first, inputs).live,
            listed(inputs),
            batches(cycle_run(first, inputs).actions),
        ),
        batches(cycle_run(first, inputs).actions).len() > 0 ==> visiting(
            Seq::empty(),
            seen(first, inputs, true),
        ),
{
    lemma_cycle_inv(first, inputs);
    let run = cycle_run(first, inputs);
    let deletions = batches(run.actions);
    if deletions.len() == 0 {
        assert(deletions =~= Seq::empty());
        assert(deletions.flatten() =~= Seq::<Digest>::empty());
    } else {
        match run.state {
            CycleState::Sweeping(GcSweepState::Running(sweep)) => {
                lemma_sweep_inv_deleting(sweep, run.live, listed(inputs), deletions);
            },
            _ => {},
        }
    }
}

/// Going on with the roots opens a collection over all its chunks, or reports the count; and only
/// claimed digests become live.
pub open spec fn visit_opens<E>(live: Set<Digest>, rest: Seq<HashAndFormat>) -> bool {
    let step = visit::<E>(live, rest);
    &&& match step.action {
        MarkActionView::OpenChildren(root, chunks) => {
            &&& chunks == Set::<u64>::full()
            &&& step.state matches MarkState::Opening(at, _) && at == root
        },
        MarkActionView::Yield(MarkEventView::CustomDebug(text)) => {
            &&& step.state is Counted
            &&& text == "gc mark done. found "@ + decimal(step.live.len()) + " live blobs"@
        },
        _ => false,
    }
    &&& live.subset_of(step.live)
    &&& forall|h: Digest| #[trigger]
        step.live.contains(h) ==> live.contains(h) || claimed(rest, h)
}

pub proof fn lemma_visit_opens<E>(live: Set<Digest>, rest: Seq<HashAndFormat>)
    ensures
        visit_opens::<E>(live, rest),
    decreases rest.len(),
{
    if rest.len() > 0 {
        let root = rest.last();
        let others = rest.drop_last();
        lemma_visit_opens::<E>(live.insert(root.hash), others);
        assert forall|h: Digest| #[trigger] visit::<E>(live, rest).live.contains(h) implies
            live.contains(h) || claimed(rest, h) by {
            assert(rest[rest.len() - 1].hash == root.hash);
            if claimed(others, h) {
                let i = choose|i: int| 0 <= i < others.len() && (#[trigger] others[i]).hash == h;
                assert(rest[i].hash == h);
            }
        }
    }
}

/// A cycle that returned is over, and a failure makes it return.
pub proof fn lemma_return<E>(first: Set<Digest>, inputs: Seq<CycleInputView<E>>)
    requires
        awaited(first, inputs),
        inputs.len() > 0,
    ensures
        cycle_run(first, inputs).actions.last() is Return <==> cycle_run(first, inputs).state
            is Over,
        failure_of(inputs.last()) matches Some(error) ==> cycle_run(first, inputs).actions.last()
            == CycleActionView::<E>::Return(Err(error)),
{
    let before = inputs.drop_last();
    lemma_cycle_inv(first, inputs);
    lemma_cycle_inv(first, before);
    lemma_history(first, inputs);
    let run = cycle_run(first, before);
    match (run.state, inputs.last()) {
        (CycleState::Marking(GcMarkState::Running(mark), safe), CycleInputView::Mark(answer)) => {
            lemma_mark_step(mark, seen(first, before, safe), answer);
        },
        (CycleState::Sweeping(GcSweepState::Running(sweep)), CycleInputView::Sweep(answer)) => {
            lemma_sweep_step(sweep, run.live, listed(before), batches(run.actions), answer);
        },
        _ => {},
    }
}

/// A mark that visited all roots has marked what it should.
pub proof fn lemma_marked(m: Marking)
    requires
        visiting(Seq::empty(), m),
    ensures
        marked(m.first, m.live, m.claims, m.members),
        each_opened_once(m.claims, m.opened),
{
    assert forall|hash: Digest| #[trigger] m.live.contains(hash) <==> m.first.contains(hash)
        || claimed(m.claims, hash) || m.members.contains(hash) by {
        if visited(m.claims, Seq::empty(), hash) {
            let c = choose|c: HashAndFormat| #[trigger]
                m.claims.contains(c) && !Seq::<HashAndFormat>::empty().contains(c) && c.hash == hash;
            let i = choose|i: int| 0 <= i < m.claims.len() && m.claims[i] == c;
            assert(m.claims[i].hash == hash);
        }
        if claimed(m.claims, hash) {
            let i = choose|i: int|
                0 <= i < m.claims.len() && (#[trigger] m.claims[i]).hash == hash;
            assert(m.claims.contains(m.claims[i]));
        }
    }
}

} // verus!
