//! What a schedule does with each answer, round after round.

use std::time::Duration;
use vstd::prelude::*;
use crate::digest::Digest;
use crate::laws::{schedule_awaited, schedule_steps};
use crate::schedule::{
    schedule_step, GcConfig, ProtectOutcome, RunGc, ScheduleAction, ScheduleInput,
};
use crate::set::DigestSet;

verus! {

/// Whether an input answers an action of the schedule.
pub open spec fn replies<E>(action: ScheduleAction<E>, input: ScheduleInput<E>) -> bool {
    match action {
        ScheduleAction::Sleep(_) => input is Slept,
        ScheduleAction::Protect => input is Protected,
        ScheduleAction::Cycle => input is Cycled,
        ScheduleAction::Stop(_) => false,
    }
}

/// Whether a new round begins with this input.
pub open spec fn begins_round<E>(input: ScheduleInput<E>) -> bool {
    match input {
        ScheduleInput::Begin => true,
        ScheduleInput::Protected(ProtectOutcome::Abort) => true,
        ScheduleInput::Cycled(Ok(_)) => true,
        _ => false,
    }
}

/// A schedule has the interval of its configuration, protects if and only if that has a callback,
/// and awaits `Begin` and nothing else.
pub proof fn law_schedule_follows_its_configuration<C, E>(
    config: GcConfig<C>,
    schedule: RunGc,
    next: ScheduleInput<E>,
    yes: bool,
)
    requires
        call_ensures(RunGc::new::<C>, (&config,), schedule),
        call_ensures(RunGc::accepts::<E>, (&schedule, &next), yes),
    ensures
        schedule.interval() == config.interval,
        schedule.protects() <==> config.add_protected is Some,
        yes <==> next is Begin,
{
}

/// A round begins with the configured interval and an empty live set: at the beginning, after an
/// abort and after a successful cycle. After the interval the callback is asked, if there is one,
/// and else the cycle is run. The cycle is run as well when the callback agrees, whatever the live
/// set holds by then. A failed cycle stops the schedule with its error. Nothing but the beginning
/// of a round changes the live set, and nothing changes the configuration.
pub proof fn law_each_answer_has_its_action<E>(
    schedule: &mut RunGc,
    live: &mut DigestSet,
    input: ScheduleInput<E>,
    action: ScheduleAction<E>,
)
    requires
        call_ensures(RunGc::step::<E>, (schedule, live, input), action),
    ensures
        action is Sleep <==> begins_round(input),
        action is Sleep ==> action == ScheduleAction::<E>::Sleep(old(schedule).interval())
            && final(live)@ == Set::<Digest>::empty(),
        action is Protect <==> input is Slept && old(schedule).protects(),
        action is Cycle <==> {
            ||| input is Slept && !old(schedule).protects()
            ||| input == ScheduleInput::<E>::Protected(ProtectOutcome::Continue)
        },
        forall|error: E|
            action == ScheduleAction::Stop(error) <==> input == ScheduleInput::Cycled(
                Err::<(), E>(error),
            ),
        !(action is Sleep) ==> final(live)@ == old(live)@,
        final(schedule).interval() == old(schedule).interval(),
        final(schedule).protects() == old(schedule).protects(),
{
}

/// After each step the schedule awaits what answers the action it gave, and nothing else; so it
/// awaits something unless a cycle has failed.
pub proof fn law_schedule_awaits_the_answer<E>(
    schedule: &mut RunGc,
    live: &mut DigestSet,
    input: ScheduleInput<E>,
    action: ScheduleAction<E>,
    next: ScheduleInput<E>,
    yes: bool,
)
    requires
        call_ensures(RunGc::step::<E>, (schedule, live, input), action),
        call_ensures(RunGc::accepts::<E>, (&*final(schedule), &next), yes),
    ensures
        yes <==> replies(action, next),
        action is Stop <==> (input matches ScheduleInput::Cycled(Err(_))),
        final(schedule).state() is Stopped <==> (input matches ScheduleInput::Cycled(Err(_))),
{
}

/// The same of the transition itself: what answers the action is awaited after it, for every
/// interval, live set and input.
pub proof fn law_transition_awaits_the_answer<E>(
    interval: Duration,
    protects: bool,
    live: Set<Digest>,
    input: ScheduleInput<E>,
    next: ScheduleInput<E>,
)
    ensures
        ({
            let step = schedule_step(interval, protects, live, input);
            &&& step.state.accepts(next) <==> replies(step.action, next)
            &&& step.state is Stopped <==> (input matches ScheduleInput::Cycled(Err(_)))
            &&& !(step.state is Start)
        }),
{
}

/// For every live set, a callback that agrees is followed by the cycle, with the live set as the
/// callback left it.
pub proof fn law_agreed_round_is_run<E>(
    interval: Duration,
    protects: bool,
    live: Set<Digest>,
    next: ScheduleInput<E>,
)
    ensures
        ({
            let step = schedule_step(
                interval,
                protects,
                live,
                ScheduleInput::<E>::Protected(ProtectOutcome::Continue),
            );
            &&& step.action is Cycle
            &&& step.live == live
            &&& step.state.accepts(next) <==> next is Cycled
        }),
{
}

/// For every live set, a successful cycle is followed by the next round: the interval, an empty
/// live set, and a schedule that waits for the interval to pass.
pub proof fn law_successful_cycle_is_followed_by_a_round<E>(
    interval: Duration,
    protects: bool,
    live: Set<Digest>,
    next: ScheduleInput<E>,
)
    ensures
        ({
            let step = schedule_step(interval, protects, live, ScheduleInput::<E>::Cycled(Ok(())));
            &&& step.action == ScheduleAction::<E>::Sleep(interval)
            &&& step.live == Set::<Digest>::empty()
            &&& step.state.accepts(next) <==> next is Slept
        }),
{
}

/// Whatever answers the last action of a schedule is what it awaits, and nothing else is.
pub proof fn law_schedule_goes_on_with_answers<E>(
    interval: Duration,
    protects: bool,
    lives: Seq<Set<Digest>>,
    inputs: Seq<ScheduleInput<E>>,
    next: ScheduleInput<E>,
)
    requires
        schedule_awaited(schedule_steps(interval, protects, lives, inputs), inputs),
        inputs.len() < lives.len(),
    ensures
        ({
            let steps = schedule_steps(interval, protects, lives, inputs);
            let longer = inputs.push(next);
            schedule_awaited(schedule_steps(interval, protects, lives, longer), longer) <==> {
                if inputs.len() == 0 {
                    next is Begin
                } else {
                    replies(steps.last().action, next)
                }
            }
        }),
{
    let steps = schedule_steps(interval, protects, lives, inputs);
    let longer = inputs.push(next);
    let more = schedule_steps(interval, protects, lives, longer);
    let n = inputs.len() as int;
    if n > 0 {
        law_transition_awaits_the_answer(interval, protects, lives[n - 1], inputs[n - 1], next);
        assert(more[n - 1] == steps[n - 1]);
        assert(longer[n] == next);
        assert(longer[0] == inputs[0]);
    } else {
        assert(longer[0] == next);
    }
    assert forall|j: int, k: int|
        #![trigger more[j], longer[k]]
        0 <= j < k < longer.len() && k == j + 1 && k < n implies more[j].state.accepts(
        longer[k],
    ) by {
        assert(more[j] == steps[j] && longer[k] == inputs[k]);
    }
}

/// A round is left in two ways only: through a cycle that succeeded, or through a callback that
/// aborted it.
pub proof fn law_rounds_end_with_a_cycle<E>(
    interval: Duration,
    protects: bool,
    lives: Seq<Set<Digest>>,
    inputs: Seq<ScheduleInput<E>>,
    k: int,
)
    requires
        schedule_awaited(schedule_steps(interval, protects, lives, inputs), inputs),
        0 < k < inputs.len(),
        schedule_steps(interval, protects, lives, inputs)[k].action is Sleep,
    ensures
        ({
            let steps = schedule_steps(interval, protects, lives, inputs);
            ||| steps[k - 1].action is Cycle && (inputs[k] matches ScheduleInput::Cycled(Ok(_)))
            ||| steps[k - 1].action is Protect && inputs[k] == ScheduleInput::<E>::Protected(
                ProtectOutcome::Abort,
            )
        }),
{
    let steps = schedule_steps(interval, protects, lives, inputs);
    assert(steps[k - 1].state.accepts(inputs[k]));
}

} // verus!
