//! Running a function under the execution lock.
//!
//! The lock is acquired before the function runs and released after it,
//! however it came back: with a value, with an error, or by unwinding. An
//! unwind is held only as long as the release takes and is then resumed
//! unchanged, never turned into an error.

use vstd::prelude::*;
use crate::protocol::{Action, BodyOutcome, Completion, Error, Event, Primitive, occurrences};

verus! {

/// The state of one run under the lock.
#[derive(Clone, Copy, Debug, PartialEq, Eq, Structural)]
pub enum ExecFunction {
    /// `AcquireLock` has been asked for.
    Acquiring,
    /// The lock is held and the body is running.
    Running,
    /// The body came back as recorded and `ReleaseLock` has been asked for.
    Releasing(BodyOutcome),
    /// The run is over.
    Finished(Completion),
}

/// How a run ends once the lock has been given back with `release`, the body
/// having come back as `outcome`: an unwind is resumed whatever the engine
/// answered, a failed release is reported before anything the body
/// returned, and otherwise the body's own result stands.
pub open spec fn completion_after_release(outcome: BodyOutcome, release: i32) -> Completion {
    if outcome == BodyOutcome::Unwound {
        Completion::Unwind
    } else {
        match Primitive::ReleaseLock.check_spec(release) {
            Err(error) => Completion::Fail(error),
            Ok(_) => Completion::Body,
        }
    }
}

impl ExecFunction {
    /// What the machine is waiting for its driver to do.
    pub open spec fn pending(self) -> Action {
        match self {
            ExecFunction::Acquiring => Action::Call(Primitive::AcquireLock),
            ExecFunction::Running => Action::RunBody,
            ExecFunction::Releasing(_) => Action::Call(Primitive::ReleaseLock),
            ExecFunction::Finished(completion) => Action::Finish(completion),
        }
    }

    /// Whether the lock has been granted and its release has not been asked
    /// for yet.
    pub open spec fn holds_lock(self) -> bool {
        self is Running
    }

    /// The transition function: the state after `event`, and the next action.
    pub open spec fn next(self, event: Event) -> (ExecFunction, Action) {
        match (self, event) {
            (ExecFunction::Acquiring, Event::Reply(code)) => {
                match Primitive::AcquireLock.check_spec(code) {
                    Err(error) => (
                        ExecFunction::Finished(Completion::Fail(error)),
                        Action::Finish(Completion::Fail(error)),
                    ),
                    Ok(_) => (ExecFunction::Running, Action::RunBody),
                }
            },
            (ExecFunction::Running, Event::Body(outcome)) => (
                ExecFunction::Releasing(outcome),
                Action::Call(Primitive::ReleaseLock),
            ),
            (ExecFunction::Releasing(outcome), Event::Reply(code)) => {
                let completion = completion_after_release(outcome, code);
                (ExecFunction::Finished(completion), Action::Finish(completion))
            },
            _ => (self, Action::Rejected),
        }
    }

    /// The state after the events `events`, and the actions that the machine
    /// answered them with, in order.
    pub open spec fn run(self, events: Seq<Event>) -> (ExecFunction, Seq<Action>)
        decreases events.len(),
    {
        if events.len() == 0 {
            (self, Seq::empty())
        } else {
            let (state, actions) = self.run(events.drop_last());
            let (after, action) = state.next(events.last());
            (after, actions.push(action))
        }
    }

    /// How often, over the events `events`, the engine granted an
    /// `AcquireLock` that the machine had asked for.
    pub open spec fn locks_granted(self, events: Seq<Event>) -> nat
        decreases events.len(),
    {
        if events.len() == 0 {
            0
        } else {
            let (state, _) = self.run(events.drop_last());
            let granted = state is Acquiring && (events.last() matches Event::Reply(code)
                && Primitive::AcquireLock.accepts(code as int));
            self.locks_granted(events.drop_last()) + if granted {
                1nat
            } else {
                0nat
            }
        }
    }

    /// A run that has not started: the lock is to be acquired first.
    pub fn new() -> (machine: ExecFunction)
        ensures
            machine == ExecFunction::Acquiring,
    {
        ExecFunction::Acquiring
    }

    /// What the driver has to do now.
    pub fn action(&self) -> (action: Action)
        ensures
            action == self.pending(),
    {
        match self {
            ExecFunction::Acquiring => Action::Call(Primitive::AcquireLock),
            ExecFunction::Running => Action::RunBody,
            ExecFunction::Releasing(_) => Action::Call(Primitive::ReleaseLock),
            ExecFunction::Finished(completion) => Action::Finish(*completion),
        }
    }

    /// Takes what the driver reports and says what to do next. An event that
    /// the machine is not waiting for is rejected and changes nothing.
    pub fn step(&mut self, event: Event) -> (action: Action)
        ensures
            (*final(self), action) == old(self).next(event),
    {
        match (*self, event) {
            (ExecFunction::Acquiring, Event::Reply(code)) => {
                match Primitive::AcquireLock.check(code) {
                    Err(error) => {
                        *self = ExecFunction::Finished(Completion::Fail(error));
                        Action::Finish(Completion::Fail(error))
                    },
                    Ok(_) => {
                        *self = ExecFunction::Running;
                        Action::RunBody
                    },
                }
            },
            (ExecFunction::Running, Event::Body(outcome)) => {
                *self = ExecFunction::Releasing(outcome);
                Action::Call(Primitive::ReleaseLock)
            },
            (ExecFunction::Releasing(outcome), Event::Reply(code)) => {
                let completion = match outcome {
                    BodyOutcome::Unwound => Completion::Unwind,
                    _ => match Primitive::ReleaseLock.check(code) {
                        Err(error) => Completion::Fail(error),
                        Ok(_) => Completion::Body,
                    },
                };
                *self = ExecFunction::Finished(completion);
                Action::Finish(completion)
            },
            _ => Action::Rejected,
        }
    }
}

/// Where the lock is refused the body never runs and nothing is released:
/// the run ends at once with the engine's failure.
pub proof fn lemma_refused_lock_runs_nothing(acquire: i32)
    requires
        !Primitive::AcquireLock.accepts(acquire as int),
    ensures
        ExecFunction::Acquiring.next(Event::Reply(acquire)).1 == Action::Finish(
            Completion::Fail(Error::Engine { primitive: Primitive::AcquireLock, code: acquire }),
        ),
{
}

/// Once the lock is granted, every path to the end of the run leads through
/// `ReleaseLock`: the body runs, the release is asked for however the body
/// came back, and the run finishes only after the engine has answered it.
pub proof fn lemma_lock_released_on_every_path(acquire: i32, outcome: BodyOutcome, release: i32)
    requires
        Primitive::AcquireLock.accepts(acquire as int),
    ensures
        ({
            let (running, first) = ExecFunction::Acquiring.next(Event::Reply(acquire));
            let (releasing, second) = running.next(Event::Body(outcome));
            let (finished, third) = releasing.next(Event::Reply(release));
            &&& first == Action::RunBody
            &&& running.holds_lock()
            &&& second == Action::Call(Primitive::ReleaseLock)
            &&& !releasing.holds_lock()
            &&& third == Action::Finish(completion_after_release(outcome, release))
            &&& finished == ExecFunction::Finished(completion_after_release(outcome, release))
        }),
{
}

/// A body that unwinds has the lock released, and then its own unwind
/// resumed: the caller sees the failure that the body raised, whatever the
/// engine answered to the release.
pub proof fn lemma_unwind_is_resumed_after_release(release: i32)
    ensures
        ({
            let (releasing, second) = ExecFunction::Running.next(Event::Body(BodyOutcome::Unwound));
            let (finished, third) = releasing.next(Event::Reply(release));
            &&& second == Action::Call(Primitive::ReleaseLock)
            &&& third == Action::Finish(Completion::Unwind)
        }),
{
}

/// No step finishes a run while the lock is held, and a rejected event
/// changes nothing.
pub proof fn lemma_never_finishes_holding_the_lock(state: ExecFunction, event: Event)
    ensures
        state.next(event).1 is Finish ==> !state.holds_lock() && !state.next(event).0.holds_lock(),
        state.next(event).1 is Rejected ==> state.next(event).0 == state,
        state.holds_lock() && !state.next(event).0.holds_lock() ==> state.next(event).1
            == Action::Call(Primitive::ReleaseLock),
{
}

/// Along every run, from any state and under any events, each lock that was
/// granted is either still held or has had its release asked for, and
/// nothing is released that was not granted.
pub proof fn lemma_lock_balance_from(state: ExecFunction, events: Seq<Event>)
    ensures
        ({
            let (after, actions) = state.run(events);
            let held_before: nat = if state.holds_lock() {
                1
            } else {
                0
            };
            let held_after: nat = if after.holds_lock() {
                1
            } else {
                0
            };
            state.locks_granted(events) + held_before == occurrences(
                actions,
                Action::Call(Primitive::ReleaseLock),
            ) + held_after
        }),
    decreases events.len(),
{
    if events.len() > 0 {
        lemma_lock_balance_from(state, events.drop_last());
        let (before, actions) = state.run(events.drop_last());
        let (after, action) = before.next(events.last());
        assert(actions.push(action).drop_last() == actions);
    }
}

/// The lock is granted at most once, and never to a run that is past
/// acquiring it.
proof fn lemma_lock_is_granted_once(state: ExecFunction, events: Seq<Event>)
    ensures
        state.locks_granted(events) <= 1,
        state.locks_granted(events) == 1 ==> !(state.run(events).0 is Acquiring),
        !(state is Acquiring) ==> state.locks_granted(events) == 0 && !(state.run(events).0
            is Acquiring),
    decreases events.len(),
{
    if events.len() > 0 {
        lemma_lock_is_granted_once(state, events.drop_last());
    }
}

/// Exactly once: when a run under the lock is over, whatever happened on the
/// way, the lock has been released as often as it was granted, which is at
/// most once.
pub proof fn lemma_lock_is_released_exactly_once(events: Seq<Event>)
    requires
        ExecFunction::Acquiring.run(events).0 is Finished,
    ensures
        occurrences(ExecFunction::Acquiring.run(events).1, Action::Call(Primitive::ReleaseLock))
            == ExecFunction::Acquiring.locks_granted(events),
        ExecFunction::Acquiring.locks_granted(events) <= 1,
{
    lemma_lock_balance_from(ExecFunction::Acquiring, events);
    lemma_lock_is_granted_once(ExecFunction::Acquiring, events);
}

} // verus!
