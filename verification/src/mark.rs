//! The mark phase: which blobs are live.
//!
//! Every tag and every temporary tag is a root. A root is live, and so is every member of a root
//! that is claimed as a collection.

use vstd::prelude::*;
use crate::chunks::ChunkRanges;
use crate::digest::{BlobFormat, Digest, HashAndFormat};
use crate::event::{GcMarkEvent, MarkEventView};
use crate::set::{with_claim, ClaimSet, DigestSet};
use crate::text::{decimal, push_decimal};

verus! {

/// A tag, as the store lists it.
#[derive(Debug)]
pub struct TagEntry {
    /// The tag's name, as it is shown in messages.
    pub name_text: String,
    /// What the tag claims.
    pub claim: HashAndFormat,
    /// The claim, as it is shown in messages.
    pub claim_text: String,
}

/// A temporary tag, as the store lists it.
#[derive(Debug)]
pub struct TempTagEntry {
    /// What the temporary tag claims.
    pub claim: HashAndFormat,
    /// The claim, as it is shown in messages.
    pub claim_text: String,
}

/// What the mark phase is told.
#[derive(Debug)]
pub enum MarkInput<E> {
    /// Go on: at the start, after a report, and after a traversal was opened.
    Resume,
    /// Whether a listing could be opened.
    Listed(Result<(), E>),
    /// The next tag; `None` after the last.
    Tag(Option<Result<TagEntry, E>>),
    /// The next temporary tag; `None` after the last.
    TempTag(Option<TempTagEntry>),
    /// The next member of the collection, or why it could not be read; `None` after the last.
    Child(Option<Result<Digest, String>>),
}

/// What the mark phase asks for.
#[derive(Debug)]
pub enum MarkAction<E> {
    /// Report an event.
    Yield(GcMarkEvent<E>),
    /// Open the listing of the tags.
    ListTags,
    /// Give the next tag.
    NextTag,
    /// Open the listing of the temporary tags.
    ListTempTags,
    /// Give the next temporary tag.
    NextTempTag,
    /// Open the traversal of a collection over these chunks of it.
    OpenChildren(Digest, ChunkRanges),
    /// Give the next member of the collection.
    NextChild,
    /// The phase is over.
    Return(Result<(), E>),
}

/// A [`TagEntry`] with its texts as characters.
pub struct TagView {
    pub name_text: Seq<char>,
    pub claim: HashAndFormat,
    pub claim_text: Seq<char>,
}

/// A [`TempTagEntry`] with its text as characters.
pub struct TempTagView {
    pub claim: HashAndFormat,
    pub claim_text: Seq<char>,
}

/// A [`MarkInput`] with its texts as characters.
pub enum MarkInputView<E> {
    Resume,
    Listed(Result<(), E>),
    Tag(Option<Result<TagView, E>>),
    TempTag(Option<TempTagView>),
    Child(Option<Result<Digest, Seq<char>>>),
}

/// A [`MarkAction`] with its texts as characters and its chunks as a set.
pub enum MarkActionView<E> {
    Yield(MarkEventView<E>),
    ListTags,
    NextTag,
    ListTempTags,
    NextTempTag,
    OpenChildren(Digest, Set<u64>),
    NextChild,
    Return(Result<(), E>),
}

impl View for TagEntry {
    type V = TagView;

    open spec fn view(&self) -> TagView {
        TagView { name_text: self.name_text@, claim: self.claim, claim_text: self.claim_text@ }
    }
}

impl View for TempTagEntry {
    type V = TempTagView;

    open spec fn view(&self) -> TempTagView {
        TempTagView { claim: self.claim, claim_text: self.claim_text@ }
    }
}

impl<E> View for MarkInput<E> {
    type V = MarkInputView<E>;

    open spec fn view(&self) -> MarkInputView<E> {
        match *self {
            MarkInput::Resume => MarkInputView::Resume,
            MarkInput::Listed(result) => MarkInputView::Listed(result),
            MarkInput::Tag(None) => MarkInputView::Tag(None),
            MarkInput::Tag(Some(Ok(tag))) => MarkInputView::Tag(Some(Ok(tag@))),
            MarkInput::Tag(Some(Err(error))) => MarkInputView::Tag(Some(Err(error))),
            MarkInput::TempTag(None) => MarkInputView::TempTag(None),
            MarkInput::TempTag(Some(tag)) => MarkInputView::TempTag(Some(tag@)),
            MarkInput::Child(None) => MarkInputView::Child(None),
            MarkInput::Child(Some(Ok(child))) => MarkInputView::Child(Some(Ok(child))),
            MarkInput::Child(Some(Err(text))) => MarkInputView::Child(Some(Err(text@))),
        }
    }
}

impl<E> View for MarkAction<E> {
    type V = MarkActionView<E>;

    open spec fn view(&self) -> MarkActionView<E> {
        match *self {
            MarkAction::Yield(event) => MarkActionView::Yield(event@),
            MarkAction::ListTags => MarkActionView::ListTags,
            MarkAction::NextTag => MarkActionView::NextTag,
            MarkAction::ListTempTags => MarkActionView::ListTempTags,
            MarkAction::NextTempTag => MarkActionView::NextTempTag,
            MarkAction::OpenChildren(root, ranges) => MarkActionView::OpenChildren(root, ranges@),
            MarkAction::NextChild => MarkActionView::NextChild,
            MarkAction::Return(result) => MarkActionView::Return(result),
        }
    }
}

/// Where a mark phase stands.
#[derive(Debug)]
pub enum MarkTask {
    /// Nothing was done yet.
    Start,
    /// The listing of the tags was announced.
    TagsAnnounced,
    /// The listing of the tags is being opened.
    TagsRequested,
    /// The next tag is awaited.
    Tags(ClaimSet),
    /// A tag was reported.
    TagAdded(ClaimSet),
    /// The listing of the temporary tags was announced.
    TempTagsAnnounced(ClaimSet),
    /// The listing of the temporary tags is being opened.
    TempTagsRequested(ClaimSet),
    /// The next temporary tag is awaited.
    TempTags(ClaimSet),
    /// A temporary tag was reported.
    TempTagAdded(ClaimSet),
    /// The traversal of a collection is being opened; the other roots are still to be visited.
    Opening(Digest, Vec<HashAndFormat>),
    /// The next member of the collection is awaited.
    Children(Digest, Vec<HashAndFormat>),
    /// A member that could not be read was reported.
    Warned(Digest, Vec<HashAndFormat>),
    /// The collection was reported as incomplete.
    Flagged(Digest, Vec<HashAndFormat>),
    /// The number of live blobs was reported.
    Counted,
    /// The phase is over.
    Finished,
}

/// A [`MarkTask`] with its claims as sequences.
pub enum MarkState {
    Start,
    TagsAnnounced,
    TagsRequested,
    Tags(Seq<HashAndFormat>),
    TagAdded(Seq<HashAndFormat>),
    TempTagsAnnounced(Seq<HashAndFormat>),
    TempTagsRequested(Seq<HashAndFormat>),
    TempTags(Seq<HashAndFormat>),
    TempTagAdded(Seq<HashAndFormat>),
    Opening(Digest, Seq<HashAndFormat>),
    Children(Digest, Seq<HashAndFormat>),
    Warned(Digest, Seq<HashAndFormat>),
    Flagged(Digest, Seq<HashAndFormat>),
    Counted,
    Finished,
}

impl View for MarkTask {
    type V = MarkState;

    open spec fn view(&self) -> MarkState {
        match *self {
            MarkTask::Start => MarkState::Start,
            MarkTask::TagsAnnounced => MarkState::TagsAnnounced,
            MarkTask::TagsRequested => MarkState::TagsRequested,
            MarkTask::Tags(roots) => MarkState::Tags(roots@),
            MarkTask::TagAdded(roots) => MarkState::TagAdded(roots@),
            MarkTask::TempTagsAnnounced(roots) => MarkState::TempTagsAnnounced(roots@),
            MarkTask::TempTagsRequested(roots) => MarkState::TempTagsRequested(roots@),
            MarkTask::TempTags(roots) => MarkState::TempTags(roots@),
            MarkTask::TempTagAdded(roots) => MarkState::TempTagAdded(roots@),
            MarkTask::Opening(root, rest) => MarkState::Opening(root, rest@),
            MarkTask::Children(root, rest) => MarkState::Children(root, rest@),
            MarkTask::Warned(root, rest) => MarkState::Warned(root, rest@),
            MarkTask::Flagged(root, rest) => MarkState::Flagged(root, rest@),
            MarkTask::Counted => MarkState::Counted,
            MarkTask::Finished => MarkState::Finished,
        }
    }
}

impl MarkState {
    /// Whether the phase, standing here, awaits this input.
    pub open spec fn accepts<E>(self, input: MarkInputView<E>) -> bool {
        match self {
            MarkState::Start
            | MarkState::TagsAnnounced
            | MarkState::TagAdded(_)
            | MarkState::TempTagsAnnounced(_)
            | MarkState::TempTagAdded(_)
            | MarkState::Opening(_, _)
            | MarkState::Warned(_, _)
            | MarkState::Flagged(_, _)
            | MarkState::Counted => input is Resume,
            MarkState::TagsRequested | MarkState::TempTagsRequested(_) => input is Listed,
            MarkState::Tags(_) => input is Tag,
            MarkState::TempTags(_) => input is TempTag,
            MarkState::Children(_, _) => input is Child,
            MarkState::Finished => false,
        }
    }
}

/// What one input does: the state and the live set after it, and what is asked for next.
pub struct MarkStep<E> {
    pub state: MarkState,
    pub live: Set<Digest>,
    pub action: MarkActionView<E>,
}

/// The report of a text.
pub open spec fn mark_note<E>(text: Seq<char>) -> MarkActionView<E> {
    MarkActionView::Yield(MarkEventView::CustomDebug(text))
}

/// Goes on with the roots that are left, from the last one down.
///
/// Each root becomes live, whether or not its digest was live already. A raw root needs nothing
/// more. A collection is opened over all its chunks, and the others wait. When none is left, the
/// number of live blobs is reported.
pub open spec fn visit<E>(live: Set<Digest>, rest: Seq<HashAndFormat>) -> MarkStep<E>
    decreases rest.len(),
{
    if rest.len() == 0 {
        MarkStep {
            state: MarkState::Counted,
            live,
            action: mark_note("gc mark done. found "@ + decimal(live.len()) + " live blobs"@),
        }
    } else {
        let root = rest.last();
        match root.format {
            BlobFormat::Raw => visit(live.insert(root.hash), rest.drop_last()),
            BlobFormat::HashSeq => MarkStep {
                state: MarkState::Opening(root.hash, rest.drop_last()),
                live: live.insert(root.hash),
                action: MarkActionView::OpenChildren(root.hash, Set::full()),
            },
        }
    }
}

/// What an input does to a mark phase.
pub open spec fn mark_step<E>(
    state: MarkState,
    live: Set<Digest>,
    input: MarkInputView<E>,
) -> MarkStep<E> {
    let go = |state: MarkState, action: MarkActionView<E>| MarkStep { state, live, action };
    let end = |result: Result<(), E>| go(MarkState::Finished, MarkActionView::Return(result));
    match (state, input) {
        (MarkState::Start, _) => go(MarkState::TagsAnnounced, mark_note("traversing tags"@)),
        (MarkState::TagsAnnounced, _) => go(MarkState::TagsRequested, MarkActionView::ListTags),
        (MarkState::TagsRequested, MarkInputView::Listed(Ok(_))) => go(
            MarkState::Tags(Seq::empty()),
            MarkActionView::NextTag,
        ),
        (MarkState::TagsRequested, MarkInputView::Listed(Err(error))) => end(Err(error)),
        (MarkState::Tags(roots), MarkInputView::Tag(Some(Ok(tag)))) => go(
            MarkState::TagAdded(with_claim(roots, tag.claim)),
            mark_note("adding root "@ + tag.name_text + " "@ + tag.claim_text),
        ),
        (MarkState::Tags(roots), MarkInputView::Tag(Some(Err(error)))) => end(Err(error)),
        (MarkState::Tags(roots), MarkInputView::Tag(None)) => go(
            MarkState::TempTagsAnnounced(roots),
            mark_note("traversing temp roots"@),
        ),
        (MarkState::TagAdded(roots), _) => go(MarkState::Tags(roots), MarkActionView::NextTag),
        (MarkState::TempTagsAnnounced(roots), _) => go(
            MarkState::TempTagsRequested(roots),
            MarkActionView::ListTempTags,
        ),
        (MarkState::TempTagsRequested(roots), MarkInputView::Listed(Ok(_))) => go(
            MarkState::TempTags(roots),
            MarkActionView::NextTempTag,
        ),
        (MarkState::TempTagsRequested(roots), MarkInputView::Listed(Err(error))) => end(Err(error)),
        (MarkState::TempTags(roots), MarkInputView::TempTag(Some(tag))) => go(
            MarkState::TempTagAdded(with_claim(roots, tag.claim)),
            mark_note("adding temp root "@ + tag.claim_text),
        ),
        (MarkState::TempTags(roots), MarkInputView::TempTag(None)) => visit(live, roots),
        (MarkState::TempTagAdded(roots), _) => go(
            MarkState::TempTags(roots),
            MarkActionView::NextTempTag,
        ),
        (MarkState::Opening(root, rest), _) => go(
            MarkState::Children(root, rest),
            MarkActionView::NextChild,
        ),
        (MarkState::Children(root, rest), MarkInputView::Child(Some(Ok(child)))) => MarkStep {
            state: MarkState::Children(root, rest),
            live: live.insert(child),
            action: MarkActionView::NextChild,
        },
        (MarkState::Children(root, rest), MarkInputView::Child(Some(Err(text)))) => go(
            MarkState::Warned(root, rest),
            MarkActionView::Yield(
                MarkEventView::CustomWarning("error while traversing hashseq: "@ + text, None),
            ),
        ),
        (MarkState::Children(root, rest), MarkInputView::Child(None)) => visit(live, rest),
        (MarkState::Warned(root, rest), _) => go(
            MarkState::Flagged(root, rest),
            MarkActionView::Yield(MarkEventView::TraversalIncomplete(root)),
        ),
        (MarkState::Flagged(root, rest), _) => go(
            MarkState::Children(root, rest),
            MarkActionView::NextChild,
        ),
        (MarkState::Counted, _) => end(Ok(())),
        _ => arbitrary(),
    }
}

/// The report of a text.
fn note<E>(text: &str) -> (action: MarkAction<E>)
    ensures
        action@ == mark_note::<E>(text@),
{
    MarkAction::Yield(GcMarkEvent::CustomDebug(String::from_str(text)))
}

impl MarkTask {
    /// A mark phase that has not begun.
    pub fn new() -> (task: Self)
        ensures
            task@ == MarkState::Start,
    {
        MarkTask::Start
    }

    /// Whether the phase awaits this input.
    pub fn accepts<E>(&self, input: &MarkInput<E>) -> (yes: bool)
        ensures
            yes == self@.accepts(input@),
    {
        match self {
            MarkTask::Start
            | MarkTask::TagsAnnounced
            | MarkTask::TagAdded(_)
            | MarkTask::TempTagsAnnounced(_)
            | MarkTask::TempTagAdded(_)
            | MarkTask::Opening(_, _)
            | MarkTask::Warned(_, _)
            | MarkTask::Flagged(_, _)
            | MarkTask::Counted => matches!(input, MarkInput::Resume),
            MarkTask::TagsRequested | MarkTask::TempTagsRequested(_) => matches!(
                input,
                MarkInput::Listed(_)
            ),
            MarkTask::Tags(_) => matches!(input, MarkInput::Tag(_)),
            MarkTask::TempTags(_) => matches!(input, MarkInput::TempTag(_)),
            MarkTask::Children(_, _) => matches!(input, MarkInput::Child(_)),
            MarkTask::Finished => false,
        }
    }

    /// Goes on with the roots that are left.
    fn visit<E>(live: &mut DigestSet, roots: Vec<HashAndFormat>) -> (res: (Self, MarkAction<E>))
        ensures
            (MarkStep { state: res.0@, live: final(live)@, action: res.1@ }) == visit::<E>(
                old(live)@,
                roots@,
            ),
    {
        let mut rest = roots;
        loop
            invariant
                visit::<E>(live@, rest@) == visit::<E>(old(live)@, roots@),
            decreases rest.len(),
        {
            match rest.pop() {
                Some(root) => {
                    let _ = live.insert(root.hash);
                    if !root.format.is_raw() {
                        return (
                            MarkTask::Opening(root.hash, rest),
                            MarkAction::OpenChildren(root.hash, ChunkRanges::all()),
                        );
                    }
                },
                None => {
                    let mut text = String::from_str("gc mark done. found ");
                    push_decimal(&mut text, live.len() as u64);
                    text.append(" live blobs");
                    return (MarkTask::Counted, MarkAction::Yield(GcMarkEvent::CustomDebug(text)));
                },
            }
        }
    }

    /// Takes the awaited input, marks what it makes live, and gives the next action.
    pub fn step<E>(&mut self, live: &mut DigestSet, input: MarkInput<E>) -> (action: MarkAction<E>)
        requires
            old(self)@.accepts(input@),
        ensures
            (MarkStep { state: final(self)@, live: final(live)@, action: action@ }) == mark_step(
                old(self)@,
                old(live)@,
                input@,
            ),
    {
        let mut task = MarkTask::Finished;
        core::mem::swap(self, &mut task);
        let (next, action) = match (task, input) {
            (MarkTask::Start, _) => (MarkTask::TagsAnnounced, note("traversing tags")),
            (MarkTask::TagsAnnounced, _) => (MarkTask::TagsRequested, MarkAction::ListTags),
            (MarkTask::TagsRequested, MarkInput::Listed(Ok(_))) => (
                MarkTask::Tags(ClaimSet::new()),
                MarkAction::NextTag,
            ),
            (MarkTask::Tags(roots), MarkInput::Tag(Some(Ok(tag)))) => {
                let mut text = String::from_str("adding root ");
                text.append(tag.name_text.as_str());
                text.append(" ");
                text.append(tag.claim_text.as_str());
                (
                    MarkTask::TagAdded(roots.insert(tag.claim)),
                    MarkAction::Yield(GcMarkEvent::CustomDebug(text)),
                )
            },
            (MarkTask::Tags(roots), MarkInput::Tag(None)) => (
                MarkTask::TempTagsAnnounced(roots),
                note("traversing temp roots"),
            ),
            (MarkTask::TagAdded(roots), _) => (MarkTask::Tags(roots), MarkAction::NextTag),
            (MarkTask::TempTagsAnnounced(roots), _) => (
                MarkTask::TempTagsRequested(roots),
                MarkAction::ListTempTags,
            ),
            (MarkTask::TempTagsRequested(roots), MarkInput::Listed(Ok(_))) => (
                MarkTask::TempTags(roots),
                MarkAction::NextTempTag,
            ),
            (MarkTask::TempTags(roots), MarkInput::TempTag(Some(tag))) => {
                let mut text = String::from_str("adding temp root ");
                text.append(tag.claim_text.as_str());
                (
                    MarkTask::TempTagAdded(roots.insert(tag.claim)),
                    MarkAction::Yield(GcMarkEvent::CustomDebug(text)),
                )
            },
            (MarkTask::TempTags(roots), MarkInput::TempTag(None)) => Self::visit(
                live,
                roots.into_vec(),
            ),
            (MarkTask::TempTagAdded(roots), _) => (
                MarkTask::TempTags(roots),
                MarkAction::NextTempTag,
            ),
            (MarkTask::Opening(root, rest), _) => (
                MarkTask::Children(root, rest),
                MarkAction::NextChild,
            ),
            (MarkTask::Children(root, rest), MarkInput::Child(Some(Ok(child)))) => {
                let _ = live.insert(child);
                (MarkTask::Children(root, rest), MarkAction::NextChild)
            },
            (MarkTask::Children(root, rest), MarkInput::Child(Some(Err(why)))) => {
                let mut text = String::from_str("error while traversing hashseq: ");
                text.append(why.as_str());
                (
                    MarkTask::Warned(root, rest),
                    MarkAction::Yield(GcMarkEvent::CustomWarning(text, None)),
                )
            },
            (MarkTask::Children(_, rest), MarkInput::Child(None)) => Self::visit(live, rest),
            (MarkTask::Warned(root, rest), _) => (
                MarkTask::Flagged(root, rest),
                MarkAction::Yield(GcMarkEvent::TraversalIncomplete(root)),
            ),
            (MarkTask::Flagged(root, rest), _) => (
                MarkTask::Children(root, rest),
                MarkAction::NextChild,
            ),
            (_, MarkInput::Listed(Err(error))) => (
                MarkTask::Finished,
                MarkAction::Return(Err(error)),
            ),
            (_, MarkInput::Tag(Some(Err(error)))) => (
                MarkTask::Finished,
                MarkAction::Return(Err(error)),
            ),
            // What is left is the end of the phase.
            (_, _) => (MarkTask::Finished, MarkAction::Return(Ok(()))),
        };
        *self = next;
        action
    }
}

/// The mark phase as a stream of events: an error that ends it is the last event.
///
/// Its last action is `Return(Ok(()))`, whether or not the phase failed.
#[derive(Debug)]
pub enum GcMark {
    /// The phase goes on.
    Running(MarkTask),
    /// The error that ended the phase was reported.
    Failed,
    /// The stream is over.
    Ended,
}

/// A [`GcMark`] with its phase as a [`MarkState`].
pub enum GcMarkState {
    Running(MarkState),
    Failed,
    Ended,
}

/// What one input does to the stream.
pub struct GcMarkStep<E> {
    pub state: GcMarkState,
    pub live: Set<Digest>,
    pub action: MarkActionView<E>,
}

impl View for GcMark {
    type V = GcMarkState;

    open spec fn view(&self) -> GcMarkState {
        match *self {
            GcMark::Running(task) => GcMarkState::Running(task@),
            GcMark::Failed => GcMarkState::Failed,
            GcMark::Ended => GcMarkState::Ended,
        }
    }
}

impl GcMarkState {
    /// Whether the stream, standing here, awaits this input.
    pub open spec fn accepts<E>(self, input: MarkInputView<E>) -> bool {
        match self {
            GcMarkState::Running(task) => task.accepts(input),
            GcMarkState::Failed => input is Resume,
            GcMarkState::Ended => false,
        }
    }
}

/// What an input does to the stream: as it does to the phase, but for its end.
pub open spec fn gc_mark_step<E>(
    state: GcMarkState,
    live: Set<Digest>,
    input: MarkInputView<E>,
) -> GcMarkStep<E> {
    match state {
        GcMarkState::Running(task) => {
            let step = mark_step(task, live, input);
            match step.action {
                MarkActionView::Return(Ok(_)) => GcMarkStep {
                    state: GcMarkState::Ended,
                    live: step.live,
                    action: step.action,
                },
                MarkActionView::Return(Err(error)) => GcMarkStep {
                    state: GcMarkState::Failed,
                    live: step.live,
                    action: MarkActionView::Yield(MarkEventView::Error(error)),
                },
                action => GcMarkStep {
                    state: GcMarkState::Running(step.state),
                    live: step.live,
                    action,
                },
            }
        },
        GcMarkState::Failed => GcMarkStep {
            state: GcMarkState::Ended,
            live,
            action: MarkActionView::Return(Ok(())),
        },
        GcMarkState::Ended => arbitrary(),
    }
}

impl GcMark {
    /// A stream that has not begun.
    pub fn new() -> (stream: Self)
        ensures
            stream@ == GcMarkState::Running(MarkState::Start),
    {
        GcMark::Running(MarkTask::new())
    }

    /// Whether the stream awaits this input.
    pub fn accepts<E>(&self, input: &MarkInput<E>) -> (yes: bool)
        ensures
            yes == self@.accepts(input@),
    {
        match self {
            GcMark::Running(task) => task.accepts(input),
            GcMark::Failed => matches!(input, MarkInput::Resume),
            GcMark::Ended => false,
        }
    }

    /// Takes the awaited input and gives the next action.
    pub fn step<E>(&mut self, live: &mut DigestSet, input: MarkInput<E>) -> (action: MarkAction<E>)
        requires
            old(self)@.accepts(input@),
        ensures
            (GcMarkStep { state: final(self)@, live: final(live)@, action: action@ })
                == gc_mark_step(old(self)@, old(live)@, input@),
    {
        let mut stream = GcMark::Ended;
        core::mem::swap(self, &mut stream);
        match stream {
            GcMark::Running(mut task) => match task.step(live, input) {
                MarkAction::Return(Err(error)) => {
                    *self = GcMark::Failed;
                    MarkAction::Yield(GcMarkEvent::Error(error))
                },
                MarkAction::Return(done) => MarkAction::Return(done),
                action => {
                    *self = GcMark::Running(task);
                    action
                },
            },
            // What is left is the end of the stream, after its error was reported.
            _ => MarkAction::Return(Ok(())),
        }
    }
}

} // verus!
