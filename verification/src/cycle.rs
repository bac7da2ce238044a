//! One collection cycle: clear the protected set, mark, and sweep unless the mark was incomplete.

use vstd::prelude::*;
use crate::digest::Digest;
use crate::event::{GcMarkEvent, GcSweepEvent, MarkEventView, SweepEventView};
use crate::mark::{
    gc_mark_step, GcMark, GcMarkState, GcMarkStep, MarkAction, MarkActionView, MarkInput,
    MarkInputView, MarkState,
};
use crate::set::DigestSet;
use crate::sweep::{
    gc_sweep_step, GcSweep, GcSweepState, GcSweepStep, SweepAction, SweepActionView, SweepInput,
    SweepState,
};

verus! {

/// What a cycle is told.
#[derive(Debug)]
pub enum CycleInput<E> {
    /// Begin.
    Begin,
    /// How clearing the protected set went.
    Cleared(Result<(), E>),
    /// The answer to an action of the mark phase.
    Mark(MarkInput<E>),
    /// The answer to an action of the sweep phase.
    Sweep(SweepInput<E>),
}

/// What a cycle asks for.
#[derive(Debug)]
pub enum CycleAction<E> {
    /// Forget what the store protected during the last sweep.
    ClearProtected,
    /// An action of the mark phase. It is never its end nor the report of its error.
    Mark(MarkAction<E>),
    /// An action of the sweep phase. It is never its end nor the report of its error.
    Sweep(SweepAction<E>),
    /// The cycle is over.
    Return(Result<(), E>),
}

/// A [`CycleInput`] with its texts as characters.
pub enum CycleInputView<E> {
    Begin,
    Cleared(Result<(), E>),
    Mark(MarkInputView<E>),
    Sweep(SweepInput<E>),
}

/// A [`CycleAction`] with its texts as characters and its collections as mathematical ones.
pub enum CycleActionView<E> {
    ClearProtected,
    Mark(MarkActionView<E>),
    Sweep(SweepActionView<E>),
    Return(Result<(), E>),
}

impl<E> View for CycleInput<E> {
    type V = CycleInputView<E>;

    open spec fn view(&self) -> CycleInputView<E> {
        match *self {
            CycleInput::Begin => CycleInputView::Begin,
            CycleInput::Cleared(result) => CycleInputView::Cleared(result),
            CycleInput::Mark(input) => CycleInputView::Mark(input@),
            CycleInput::Sweep(input) => CycleInputView::Sweep(input),
        }
    }
}

impl<E> View for CycleAction<E> {
    type V = CycleActionView<E>;

    open spec fn view(&self) -> CycleActionView<E> {
        match *self {
            CycleAction::ClearProtected => CycleActionView::ClearProtected,
            CycleAction::Mark(action) => CycleActionView::Mark(action@),
            CycleAction::Sweep(action) => CycleActionView::Sweep(action@),
            CycleAction::Return(result) => CycleActionView::Return(result),
        }
    }
}

/// Where a cycle stands.
#[derive(Debug)]
pub enum GcRunOnce {
    /// Nothing was done yet.
    Start,
    /// The protected set is being cleared.
    Clearing,
    /// The mark phase goes on; the flag tells whether a sweep is still safe.
    Marking(GcMark, bool),
    /// The sweep phase goes on.
    Sweeping(GcSweep),
    /// The cycle is over.
    Over,
}

/// A [`GcRunOnce`] with its phases as states.
pub enum CycleState {
    Start,
    Clearing,
    Marking(GcMarkState, bool),
    Sweeping(GcSweepState),
    Over,
}

impl View for GcRunOnce {
    type V = CycleState;

    open spec fn view(&self) -> CycleState {
        match *self {
            GcRunOnce::Start => CycleState::Start,
            GcRunOnce::Clearing => CycleState::Clearing,
            GcRunOnce::Marking(mark, safe) => CycleState::Marking(mark@, safe),
            GcRunOnce::Sweeping(sweep) => CycleState::Sweeping(sweep@),
            GcRunOnce::Over => CycleState::Over,
        }
    }
}

impl CycleState {
    /// Whether the cycle, standing here, awaits this input.
    pub open spec fn accepts<E>(self, input: CycleInputView<E>) -> bool {
        match self {
            CycleState::Start => input is Begin,
            CycleState::Clearing => input is Cleared,
            CycleState::Marking(mark, _) => match input {
                CycleInputView::Mark(input) => mark.accepts(input),
                _ => false,
            },
            CycleState::Sweeping(sweep) => match input {
                CycleInputView::Sweep(input) => sweep.accepts(input),
                _ => false,
            },
            CycleState::Over => false,
        }
    }
}

/// What one input does: the state and the live set after it, and what is asked for next.
pub struct CycleStep<E> {
    pub state: CycleState,
    pub live: Set<Digest>,
    pub action: CycleActionView<E>,
}

/// What a step of the mark phase means for the cycle.
///
/// An incomplete traversal makes the sweep unsafe. An error ends the cycle. At the end of the
/// phase the sweep begins, if it is safe; if not, the cycle is over.
pub open spec fn after_mark<E>(step: GcMarkStep<E>, safe: bool) -> CycleStep<E> {
    match step.action {
        MarkActionView::Yield(MarkEventView::Error(error)) => CycleStep {
            state: CycleState::Over,
            live: step.live,
            action: CycleActionView::Return(Err(error)),
        },
        MarkActionView::Return(_) => if safe {
            after_sweep(
                gc_sweep_step(
                    GcSweepState::Running(SweepState::Start),
                    step.live,
                    SweepInput::Resume,
                ),
                step.live,
            )
        } else {
            CycleStep {
                state: CycleState::Over,
                live: step.live,
                action: CycleActionView::Return(Ok(())),
            }
        },
        action => CycleStep {
            state: CycleState::Marking(
                step.state,
                safe && !(action matches MarkActionView::Yield(event)
                    && event is TraversalIncomplete),
            ),
            live: step.live,
            action: CycleActionView::Mark(action),
        },
    }
}

/// What a step of the sweep phase means for the cycle: it ends with the phase or its error.
pub open spec fn after_sweep<E>(step: GcSweepStep<E>, live: Set<Digest>) -> CycleStep<E> {
    match step.action {
        SweepActionView::Yield(SweepEventView::Error(error)) => CycleStep {
            state: CycleState::Over,
            live,
            action: CycleActionView::Return(Err(error)),
        },
        SweepActionView::Return(_) => CycleStep {
            state: CycleState::Over,
            live,
            action: CycleActionView::Return(Ok(())),
        },
        action => CycleStep {
            state: CycleState::Sweeping(step.state),
            live,
            action: CycleActionView::Sweep(action),
        },
    }
}

/// What an input does to a cycle.
pub open spec fn cycle_step<E>(
    state: CycleState,
    live: Set<Digest>,
    input: CycleInputView<E>,
) -> CycleStep<E> {
    match (state, input) {
        (CycleState::Start, _) => CycleStep {
            state: CycleState::Clearing,
            live,
            action: CycleActionView::ClearProtected,
        },
        (CycleState::Clearing, CycleInputView::Cleared(Ok(_))) => after_mark(
            gc_mark_step(
                GcMarkState::Running(MarkState::Start),
                live,
                MarkInputView::Resume,
            ),
            true,
        ),
        (CycleState::Clearing, CycleInputView::Cleared(Err(error))) => CycleStep {
            state: CycleState::Over,
            live,
            action: CycleActionView::Return(Err(error)),
        },
        (CycleState::Marking(mark, safe), CycleInputView::Mark(input)) => after_mark(
            gc_mark_step(mark, live, input),
            safe,
        ),
        (CycleState::Sweeping(sweep), CycleInputView::Sweep(input)) => after_sweep(
            gc_sweep_step(sweep, live, input),
            live,
        ),
        _ => arbitrary(),
    }
}

impl GcRunOnce {
    /// A cycle that has not begun.
    pub fn new() -> (cycle: Self)
        ensures
            cycle@ == CycleState::Start,
    {
        GcRunOnce::Start
    }

    /// Whether the cycle awaits this input.
    pub fn accepts<E>(&self, input: &CycleInput<E>) -> (yes: bool)
        ensures
            yes == self@.accepts(input@),
    {
        match (self, input) {
            (GcRunOnce::Start, CycleInput::Begin) => true,
            (GcRunOnce::Clearing, CycleInput::Cleared(_)) => true,
            (GcRunOnce::Marking(mark, _), CycleInput::Mark(input)) => mark.accepts(input),
            (GcRunOnce::Sweeping(sweep), CycleInput::Sweep(input)) => sweep.accepts(input),
            (_, _) => false,
        }
    }

    /// Steps the mark phase.
    fn mark<E>(
        live: &mut DigestSet,
        mark: GcMark,
        safe: bool,
        input: MarkInput<E>,
    ) -> (res: (Self, CycleAction<E>))
        requires
            mark@.accepts(input@),
        ensures
            (CycleStep { state: res.0@, live: final(live)@, action: res.1@ }) == after_mark(
                gc_mark_step(mark@, old(live)@, input@),
                safe,
            ),
    {
        let mut mark = mark;
        match mark.step(live, input) {
            MarkAction::Yield(GcMarkEvent::Error(error)) => (
                GcRunOnce::Over,
                CycleAction::Return(Err(error)),
            ),
            MarkAction::Yield(GcMarkEvent::TraversalIncomplete(root)) => (
                GcRunOnce::Marking(mark, false),
                CycleAction::Mark(MarkAction::Yield(GcMarkEvent::TraversalIncomplete(root))),
            ),
            MarkAction::Return(_) => {
                if safe {
                    Self::sweep(&*live, GcSweep::new(), SweepInput::Resume)
                } else {
                    (GcRunOnce::Over, CycleAction::Return(Ok(())))
                }
            },
            action => (GcRunOnce::Marking(mark, safe), CycleAction::Mark(action)),
        }
    }

    /// Steps the sweep phase.
    fn sweep<E>(live: &DigestSet, sweep: GcSweep, input: SweepInput<E>) -> (res: (
        Self,
        CycleAction<E>,
    ))
        requires
            sweep@.accepts(input),
        ensures
            (CycleStep { state: res.0@, live: live@, action: res.1@ }) == after_sweep(
                gc_sweep_step(sweep@, live@, input),
                live@,
            ),
    {
        let mut sweep = sweep;
        match sweep.step(live, input) {
            SweepAction::Yield(GcSweepEvent::Error(error)) => (
                GcRunOnce::Over,
                CycleAction::Return(Err(error)),
            ),
            SweepAction::Return(_) => (GcRunOnce::Over, CycleAction::Return(Ok(()))),
            action => (GcRunOnce::Sweeping(sweep), CycleAction::Sweep(action)),
        }
    }

    /// Takes the awaited input and gives the next action.
    pub fn step<E>(&mut self, live: &mut DigestSet, input: CycleInput<E>) -> (action: CycleAction<
        E,
    >)
        requires
            old(self)@.accepts(input@),
        ensures
            (CycleStep { state: final(self)@, live: final(live)@, action: action@ })
                == cycle_step(old(self)@, old(live)@, input@),
    {
        let mut cycle = GcRunOnce::Over;
        core::mem::swap(self, &mut cycle);
        let (next, action) = match (cycle, input) {
            (GcRunOnce::Start, _) => (GcRunOnce::Clearing, CycleAction::ClearProtected),
            (GcRunOnce::Clearing, CycleInput::Cleared(Ok(_))) => Self::mark(
                live,
                GcMark::new(),
                true,
                MarkInput::Resume,
            ),
            (GcRunOnce::Clearing, CycleInput::Cleared(Err(error))) => (
                GcRunOnce::Over,
                CycleAction::Return(Err(error)),
            ),
            (GcRunOnce::Marking(mark, safe), CycleInput::Mark(input)) => Self::mark(
                live,
                mark,
                safe,
                input,
            ),
            (GcRunOnce::Sweeping(sweep), CycleInput::Sweep(input)) => Self::sweep(
                &*live,
                sweep,
                input,
            ),
            // No other input is awaited.
            (_, _) => (GcRunOnce::Over, CycleAction::Return(Ok(()))),
        };
        *self = next;
        action
    }
}

} // verus!
