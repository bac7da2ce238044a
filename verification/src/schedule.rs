//! The endless schedule of collection cycles.

use std::time::Duration;
use vstd::prelude::*;
use crate::digest::Digest;
use crate::set::DigestSet;

verus! {

/// Configuration of the schedule.
pub struct GcConfig<C> {
    /// How long to wait before each cycle.
    pub interval: Duration,
    /// What is called before each cycle to add protected blobs to the live set, if anything.
    pub add_protected: Option<C>,
}

/// What the protection callback answers.
#[derive(Debug)]
pub enum ProtectOutcome {
    /// Go on with this cycle.
    Continue,
    /// Skip this cycle: not all that is to be protected could be added.
    Abort,
}

/// What the schedule is told.
#[derive(Debug)]
pub enum ScheduleInput<E> {
    /// Begin.
    Begin,
    /// The interval has passed.
    Slept,
    /// What the protection callback answered.
    Protected(ProtectOutcome),
    /// How the cycle ended.
    Cycled(Result<(), E>),
}

/// What the schedule asks for.
#[derive(Debug)]
pub enum ScheduleAction<E> {
    /// Wait so long.
    Sleep(Duration),
    /// Call the protection callback on the live set.
    Protect,
    /// Run one cycle with the live set.
    Cycle,
    /// Stop for good: a cycle failed.
    Stop(E),
}

/// What the schedule waits for.
#[derive(Debug, Clone, Copy)]
pub enum ScheduleState {
    /// To begin.
    Start,
    /// For the interval to pass.
    Sleeping,
    /// For the protection callback.
    Protecting,
    /// For the cycle to end.
    Cycling,
    /// For nothing more.
    Stopped,
}

impl ScheduleState {
    /// Whether the schedule, standing here, awaits this input.
    pub open spec fn accepts<E>(self, input: ScheduleInput<E>) -> bool {
        match self {
            ScheduleState::Start => input is Begin,
            ScheduleState::Sleeping => input is Slept,
            ScheduleState::Protecting => input is Protected,
            ScheduleState::Cycling => input is Cycled,
            ScheduleState::Stopped => false,
        }
    }
}

/// What one input does: the state and the live set after it, and what is asked for next.
pub struct ScheduleStep<E> {
    pub state: ScheduleState,
    pub live: Set<Digest>,
    pub action: ScheduleAction<E>,
}

/// What an input does to the schedule.
///
/// Every round begins with an empty live set and the interval. Then the callback is called, if
/// there is one, and unless it aborts the round, a cycle is run. A cycle that fails ends it all.
pub open spec fn schedule_step<E>(
    interval: Duration,
    protects: bool,
    live: Set<Digest>,
    input: ScheduleInput<E>,
) -> ScheduleStep<E> {
    let round = ScheduleStep {
        state: ScheduleState::Sleeping,
        live: Set::empty(),
        action: ScheduleAction::Sleep(interval),
    };
    let cycle = ScheduleStep {
        state: ScheduleState::Cycling,
        live,
        action: ScheduleAction::Cycle,
    };
    match input {
        ScheduleInput::Begin => round,
        ScheduleInput::Slept => if protects {
            ScheduleStep {
                state: ScheduleState::Protecting,
                live,
                action: ScheduleAction::Protect,
            }
        } else {
            cycle
        },
        ScheduleInput::Protected(ProtectOutcome::Continue) => cycle,
        ScheduleInput::Protected(ProtectOutcome::Abort) => round,
        ScheduleInput::Cycled(Ok(_)) => round,
        ScheduleInput::Cycled(Err(error)) => ScheduleStep {
            state: ScheduleState::Stopped,
            live,
            action: ScheduleAction::Stop(error),
        },
    }
}

/// A schedule of collection cycles.
#[derive(Debug)]
pub struct RunGc {
    interval: Duration,
    protects: bool,
    state: ScheduleState,
}

impl RunGc {
    /// How long the schedule waits before each cycle.
    pub closed spec fn interval(self) -> Duration {
        self.interval
    }

    /// Whether there is a protection callback.
    pub closed spec fn protects(self) -> bool {
        self.protects
    }

    /// What the schedule waits for.
    pub closed spec fn state(self) -> ScheduleState {
        self.state
    }

    /// A schedule that has not begun.
    pub fn new<C>(config: &GcConfig<C>) -> (schedule: Self)
        ensures
            schedule.interval() == config.interval,
            schedule.protects() == (config.add_protected is Some),
            schedule.state() == ScheduleState::Start,
    {
        RunGc {
            interval: config.interval,
            protects: config.add_protected.is_some(),
            state: ScheduleState::Start,
        }
    }

    /// Whether the schedule awaits this input.
    pub fn accepts<E>(&self, input: &ScheduleInput<E>) -> (yes: bool)
        ensures
            yes == self.state().accepts(*input),
    {
        match (&self.state, input) {
            (ScheduleState::Start, ScheduleInput::Begin) => true,
            (ScheduleState::Sleeping, ScheduleInput::Slept) => true,
            (ScheduleState::Protecting, ScheduleInput::Protected(_)) => true,
            (ScheduleState::Cycling, ScheduleInput::Cycled(_)) => true,
            (_, _) => false,
        }
    }

    /// Takes the awaited input and gives the next action.
    pub fn step<E>(&mut self, live: &mut DigestSet, input: ScheduleInput<E>) -> (action:
        ScheduleAction<E>)
        requires
            old(self).state().accepts(input),
        ensures
            final(self).interval() == old(self).interval(),
            final(self).protects() == old(self).protects(),
            (ScheduleStep { state: final(self).state(), live: final(live)@, action })
                == schedule_step(
                old(self).interval(),
                old(self).protects(),
                old(live)@,
                input,
            ),
    {
        match input {
            ScheduleInput::Slept => {
                if self.protects {
                    self.state = ScheduleState::Protecting;
                    ScheduleAction::Protect
                } else {
                    self.state = ScheduleState::Cycling;
                    ScheduleAction::Cycle
                }
            },
            ScheduleInput::Protected(ProtectOutcome::Continue) => {
                self.state = ScheduleState::Cycling;
                ScheduleAction::Cycle
            },
            ScheduleInput::Cycled(Err(error)) => {
                self.state = ScheduleState::Stopped;
                ScheduleAction::Stop(error)
            },
            _ => {
                live.clear();
                self.state = ScheduleState::Sleeping;
                ScheduleAction::Sleep(self.interval)
            },
        }
    }
}

} // verus!
