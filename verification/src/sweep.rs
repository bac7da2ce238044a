//! The sweep phase: every listed blob that is not live is deleted, in batches.

use vstd::prelude::*;
use crate::digest::Digest;
use crate::event::{GcSweepEvent, SweepEventView};
use crate::set::DigestSet;
use crate::text::{decimal, push_decimal};

verus! {

/// How many blobs are deleted at once.
pub const BATCH_SIZE: usize = 100;

/// What the sweep phase is told.
#[derive(Debug)]
pub enum SweepInput<E> {
    /// Go on: at the start, and after a report.
    Resume,
    /// How the listing, the deletion or the synchronisation that was asked for went.
    Done(Result<(), E>),
    /// The next blob of the store; `None` after the last.
    Blob(Option<Result<Digest, E>>),
}

/// What the sweep phase asks for.
#[derive(Debug)]
pub enum SweepAction<E> {
    /// Report an event.
    Yield(GcSweepEvent<E>),
    /// Open the listing of the blobs.
    ListBlobs,
    /// Give the next blob.
    NextBlob,
    /// Delete these blobs.
    Delete(Vec<Digest>),
    /// Make the deletions durable.
    SyncDb,
    /// The phase is over.
    Return(Result<(), E>),
}

/// A [`SweepAction`] with its text as characters and its batch as a sequence.
pub enum SweepActionView<E> {
    Yield(SweepEventView<E>),
    ListBlobs,
    NextBlob,
    Delete(Seq<Digest>),
    SyncDb,
    Return(Result<(), E>),
}

impl<E> View for SweepAction<E> {
    type V = SweepActionView<E>;

    open spec fn view(&self) -> SweepActionView<E> {
        match *self {
            SweepAction::Yield(event) => SweepActionView::Yield(event@),
            SweepAction::ListBlobs => SweepActionView::ListBlobs,
            SweepAction::NextBlob => SweepActionView::NextBlob,
            SweepAction::Delete(batch) => SweepActionView::Delete(batch@),
            SweepAction::SyncDb => SweepActionView::SyncDb,
            SweepAction::Return(result) => SweepActionView::Return(result),
        }
    }
}

/// Where a sweep phase stands.
#[derive(Debug)]
pub enum SweepTask {
    /// Nothing was done yet.
    Start,
    /// The listing of the blobs is being opened.
    Requested,
    /// The next blob is awaited; this batch is gathered, and so many blobs were chosen so far.
    Blobs(Vec<Digest>, u64),
    /// A full batch is being deleted; the listing goes on after it.
    Deleting(u64),
    /// The last batch is being deleted.
    DeletingLast(u64),
    /// The deletions are being made durable.
    Syncing(u64),
    /// The number of deleted blobs was reported.
    Counted,
    /// The phase is over.
    Finished,
}

/// A [`SweepTask`] with its batch as a sequence.
pub enum SweepState {
    Start,
    Requested,
    Blobs(Seq<Digest>, u64),
    Deleting(u64),
    DeletingLast(u64),
    Syncing(u64),
    Counted,
    Finished,
}

impl View for SweepTask {
    type V = SweepState;

    open spec fn view(&self) -> SweepState {
        match *self {
            SweepTask::Start => SweepState::Start,
            SweepTask::Requested => SweepState::Requested,
            SweepTask::Blobs(batch, count) => SweepState::Blobs(batch@, count),
            SweepTask::Deleting(count) => SweepState::Deleting(count),
            SweepTask::DeletingLast(count) => SweepState::DeletingLast(count),
            SweepTask::Syncing(count) => SweepState::Syncing(count),
            SweepTask::Counted => SweepState::Counted,
            SweepTask::Finished => SweepState::Finished,
        }
    }
}

impl SweepState {
    /// Whether the phase, standing here, awaits this input, and can count one more blob where the
    /// input brings one.
    pub open spec fn accepts<E>(self, input: SweepInput<E>) -> bool {
        match self {
            SweepState::Start | SweepState::Counted => input is Resume,
            SweepState::Requested
            | SweepState::Deleting(_)
            | SweepState::DeletingLast(_)
            | SweepState::Syncing(_) => input is Done,
            SweepState::Blobs(_, count) => match input {
                SweepInput::Blob(Some(Ok(_))) => count < u64::MAX,
                SweepInput::Blob(_) => true,
                _ => false,
            },
            SweepState::Finished => false,
        }
    }
}

/// What one input does: the state after it, and what is asked for next.
pub struct SweepStep<E> {
    pub state: SweepState,
    pub action: SweepActionView<E>,
}

/// The report of the number of deleted blobs.
pub open spec fn deleted_note<E>(count: u64) -> SweepActionView<E> {
    SweepActionView::Yield(
        SweepEventView::CustomDebug("deleted "@ + decimal(count as nat) + " blobs"@),
    )
}

/// What an input does to a sweep phase with this live set.
pub open spec fn sweep_step<E>(
    state: SweepState,
    live: Set<Digest>,
    input: SweepInput<E>,
) -> SweepStep<E> {
    let go = |state: SweepState, action: SweepActionView<E>| SweepStep { state, action };
    let end = |result: Result<(), E>| go(SweepState::Finished, SweepActionView::Return(result));
    match (state, input) {
        (SweepState::Start, _) => go(SweepState::Requested, SweepActionView::ListBlobs),
        (_, SweepInput::Done(Err(error))) => end(Err(error)),
        (_, SweepInput::Blob(Some(Err(error)))) => end(Err(error)),
        (SweepState::Requested, _) => go(
            SweepState::Blobs(Seq::empty(), 0),
            SweepActionView::NextBlob,
        ),
        (SweepState::Blobs(batch, count), SweepInput::Blob(Some(Ok(hash)))) => {
            if live.contains(hash) {
                go(SweepState::Blobs(batch, count), SweepActionView::NextBlob)
            } else if batch.len() + 1 < BATCH_SIZE {
                go(
                    SweepState::Blobs(batch.push(hash), (count + 1) as u64),
                    SweepActionView::NextBlob,
                )
            } else {
                go(
                    SweepState::Deleting((count + 1) as u64),
                    SweepActionView::Delete(batch.push(hash)),
                )
            }
        },
        (SweepState::Blobs(batch, count), _) => {
            if batch.len() > 0 {
                go(SweepState::DeletingLast(count), SweepActionView::Delete(batch))
            } else {
                go(SweepState::Syncing(count), SweepActionView::SyncDb)
            }
        },
        (SweepState::Deleting(count), _) => go(
            SweepState::Blobs(Seq::empty(), count),
            SweepActionView::NextBlob,
        ),
        (SweepState::DeletingLast(count), _) => go(
            SweepState::Syncing(count),
            SweepActionView::SyncDb,
        ),
        (SweepState::Syncing(count), _) => go(SweepState::Counted, deleted_note(count)),
        (SweepState::Counted, _) => end(Ok(())),
        (SweepState::Finished, _) => arbitrary(),
    }
}

impl SweepTask {
    /// A sweep phase that has not begun.
    pub fn new() -> (task: Self)
        ensures
            task@ == SweepState::Start,
    {
        SweepTask::Start
    }

    /// Whether the phase awaits this input, and can count one more blob where the input brings one.
    pub fn accepts<E>(&self, input: &SweepInput<E>) -> (yes: bool)
        ensures
            yes == self@.accepts(*input),
    {
        match self {
            SweepTask::Start | SweepTask::Counted => matches!(input, SweepInput::Resume),
            SweepTask::Requested
            | SweepTask::Deleting(_)
            | SweepTask::DeletingLast(_)
            | SweepTask::Syncing(_) => matches!(input, SweepInput::Done(_)),
            SweepTask::Blobs(_, count) => match input {
                SweepInput::Blob(Some(Ok(_))) => *count < u64::MAX,
                SweepInput::Blob(_) => true,
                _ => false,
            },
            SweepTask::Finished => false,
        }
    }

    /// Takes the awaited input and gives the next action.
    pub fn step<E>(&mut self, live: &DigestSet, input: SweepInput<E>) -> (action: SweepAction<E>)
        requires
            old(self)@.accepts(input),
        ensures
            (SweepStep { state: final(self)@, action: action@ }) == sweep_step(
                old(self)@,
                live@,
                input,
            ),
    {
        let mut task = SweepTask::Finished;
        core::mem::swap(self, &mut task);
        let (next, action) = match (task, input) {
            (SweepTask::Start, _) => (SweepTask::Requested, SweepAction::ListBlobs),
            (_, SweepInput::Done(Err(error))) => (
                SweepTask::Finished,
                SweepAction::Return(Err(error)),
            ),
            (_, SweepInput::Blob(Some(Err(error)))) => (
                SweepTask::Finished,
                SweepAction::Return(Err(error)),
            ),
            (SweepTask::Requested, _) => (
                SweepTask::Blobs(Vec::new(), 0),
                SweepAction::NextBlob,
            ),
            (SweepTask::Blobs(mut batch, mut count), SweepInput::Blob(Some(Ok(hash)))) => {
                if !live.contains(&hash) {
                    batch.push(hash);
                    count += 1;
                    if batch.len() >= BATCH_SIZE {
                        (SweepTask::Deleting(count), SweepAction::Delete(batch))
                    } else {
                        (SweepTask::Blobs(batch, count), SweepAction::NextBlob)
                    }
                } else {
                    (SweepTask::Blobs(batch, count), SweepAction::NextBlob)
                }
            },
            (SweepTask::Blobs(batch, count), _) => {
                if batch.len() > 0 {
                    (SweepTask::DeletingLast(count), SweepAction::Delete(batch))
                } else {
                    (SweepTask::Syncing(count), SweepAction::SyncDb)
                }
            },
            (SweepTask::Deleting(count), _) => (
                SweepTask::Blobs(Vec::new(), count),
                SweepAction::NextBlob,
            ),
            (SweepTask::DeletingLast(count), _) => (
                SweepTask::Syncing(count),
                SweepAction::SyncDb,
            ),
            (SweepTask::Syncing(count), _) => {
                let mut text = String::from_str("deleted ");
                push_decimal(&mut text, count);
                text.append(" blobs");
                (SweepTask::Counted, SweepAction::Yield(GcSweepEvent::CustomDebug(text)))
            },
            // What is left is the end of the phase.
            (_, _) => (SweepTask::Finished, SweepAction::Return(Ok(()))),
        };
        *self = next;
        action
    }
}

/// The sweep phase as a stream of events: an error that ends it is the last event.
///
/// Its last action is `Return(Ok(()))`, whether or not the phase failed.
#[derive(Debug)]
pub enum GcSweep {
    /// The phase goes on.
    Running(SweepTask),
    /// The error that ended the phase was reported.
    Failed,
    /// The stream is over.
    Ended,
}

/// A [`GcSweep`] with its phase as a [`SweepState`].
pub enum GcSweepState {
    Running(SweepState),
    Failed,
    Ended,
}

/// What one input does to the stream.
pub struct GcSweepStep<E> {
    pub state: GcSweepState,
    pub action: SweepActionView<E>,
}

impl View for GcSweep {
    type V = GcSweepState;

    open spec fn view(&self) -> GcSweepState {
        match *self {
            GcSweep::Running(task) => GcSweepState::Running(task@),
            GcSweep::Failed => GcSweepState::Failed,
            GcSweep::Ended => GcSweepState::Ended,
        }
    }
}

impl GcSweepState {
    /// Whether the stream, standing here, awaits this input.
    pub open spec fn accepts<E>(self, input: SweepInput<E>) -> bool {
        match self {
            GcSweepState::Running(task) => task.accepts(input),
            GcSweepState::Failed => input is Resume,
            GcSweepState::Ended => false,
        }
    }
}

/// What an input does to the stream: as it does to the phase, but for its end.
pub open spec fn gc_sweep_step<E>(
    state: GcSweepState,
    live: Set<Digest>,
    input: SweepInput<E>,
) -> GcSweepStep<E> {
    match state {
        GcSweepState::Running(task) => {
            let step = sweep_step(task, live, input);
            match step.action {
                SweepActionView::Return(Ok(_)) => GcSweepStep {
                    state: GcSweepState::Ended,
                    action: step.action,
                },
                SweepActionView::Return(Err(error)) => GcSweepStep {
                    state: GcSweepState::Failed,
                    action: SweepActionView::Yield(SweepEventView::Error(error)),
                },
                action => GcSweepStep { state: GcSweepState::Running(step.state), action },
            }
        },
        GcSweepState::Failed => GcSweepStep {
            state: GcSweepState::Ended,
            action: SweepActionView::Return(Ok(())),
        },
        GcSweepState::Ended => arbitrary(),
    }
}

impl GcSweep {
    /// A stream that has not begun.
    pub fn new() -> (stream: Self)
        ensures
            stream@ == GcSweepState::Running(SweepState::Start),
    {
        GcSweep::Running(SweepTask::new())
    }

    /// Whether the stream awaits this input.
    pub fn accepts<E>(&self, input: &SweepInput<E>) -> (yes: bool)
        ensures
            yes == self@.accepts(*input),
    {
        match self {
            GcSweep::Running(task) => task.accepts(input),
            GcSweep::Failed => matches!(input, SweepInput::Resume),
            GcSweep::Ended => false,
        }
    }

    /// Takes the awaited input and gives the next action.
    pub fn step<E>(&mut self, live: &DigestSet, input: SweepInput<E>) -> (action: SweepAction<E>)
        requires
            old(self)@.accepts(input),
        ensures
            (GcSweepStep { state: final(self)@, action: action@ }) == gc_sweep_step(
                old(self)@,
                live@,
                input,
            ),
    {
        let mut stream = GcSweep::Ended;
        core::mem::swap(self, &mut stream);
        match stream {
            GcSweep::Running(mut task) => match task.step(live, input) {
                SweepAction::Return(Err(error)) => {
                    *self = GcSweep::Failed;
                    SweepAction::Yield(GcSweepEvent::Error(error))
                },
                SweepAction::Return(done) => SweepAction::Return(done),
                action => {
                    *self = GcSweep::Running(task);
                    action
                },
            },
            // What is left is the end of the stream, after its error was reported.
            _ => SweepAction::Return(Ok(())),
        }
    }
}

} // verus!
