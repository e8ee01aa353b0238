//! Running one process from beginning to end.
//!
//! The order is fixed: the thread must own no process; then the lock is
//! acquired, the process begun, the body run, the process ended and the lock
//! released. Whatever goes wrong on the way, what has been set up is taken
//! down again in the opposite order before the run finishes.

use vstd::prelude::*;
use crate::process::{ProcessHandle, begin_spec, end_spec};
use crate::protocol::{Action, BodyOutcome, Completion, Error, Event, Primitive, occurrences};

verus! {

/// The state of one run of a process.
#[derive(Clone, Copy, Debug, PartialEq, Eq, Structural)]
pub enum RunProcess {
    /// `AcquireLock` has been asked for.
    Acquiring,
    /// The lock is held and `BeginProcess` has been asked for.
    Beginning,
    /// The process exists and the body is running.
    Running,
    /// The body came back as recorded and `EndProcess` has been asked for.
    Ending(BodyOutcome),
    /// `ReleaseLock` has been asked for; the run will end as recorded unless
    /// the release fails.
    Releasing(Completion),
    /// The run is over.
    Finished(Completion),
}

/// How a run stands once the process has been ended with the result `ended`,
/// the body having come back as `outcome`.
pub open spec fn completion_after_end(outcome: BodyOutcome, ended: Result<(), Error>) -> Completion {
    if outcome == BodyOutcome::Unwound {
        Completion::Unwind
    } else {
        match ended {
            Err(error) => Completion::Fail(error),
            Ok(_) => Completion::Body,
        }
    }
}

/// How a run that stood at `so_far` ends once the engine has answered
/// `release` to `ReleaseLock`: an unwind is resumed whatever the engine
/// answered, a failed release is reported before anything else, and
/// otherwise the run ends as it stood.
pub open spec fn completion_after_unlock(so_far: Completion, release: i32) -> Completion {
    if so_far is Unwind {
        so_far
    } else {
        match Primitive::ReleaseLock.check_spec(release) {
            Err(error) => Completion::Fail(error),
            Ok(_) => so_far,
        }
    }
}

impl RunProcess {
    /// The state in which a run starts on a thread bound as `bound` says: a
    /// thread that owns a process is refused before the engine is touched.
    pub open spec fn start(bound: Option<i32>) -> RunProcess {
        if bound is Some {
            RunProcess::Finished(Completion::Fail(Error::ProcessExists))
        } else {
            RunProcess::Acquiring
        }
    }

    /// What the machine is waiting for its driver to do.
    pub open spec fn pending(self) -> Action {
        match self {
            RunProcess::Acquiring => Action::Call(Primitive::AcquireLock),
            RunProcess::Beginning => Action::Call(Primitive::BeginProcess),
            RunProcess::Running => Action::RunBody,
            RunProcess::Ending(_) => Action::Call(Primitive::EndProcess),
            RunProcess::Releasing(_) => Action::Call(Primitive::ReleaseLock),
            RunProcess::Finished(completion) => Action::Finish(completion),
        }
    }

    /// Whether the lock has been granted and its release has not been asked
    /// for yet.
    pub open spec fn holds_lock(self) -> bool {
        self is Beginning || self is Running || self is Ending
    }

    /// The transition function: the state and the thread's binding after
    /// `event`, and the next action.
    pub open spec fn next(self, bound: Option<i32>, event: Event) -> (RunProcess, Option<i32>, Action) {
        match (self, event) {
            (RunProcess::Acquiring, Event::Reply(code)) => {
                match Primitive::AcquireLock.check_spec(code) {
                    Err(error) => (
                        RunProcess::Finished(Completion::Fail(error)),
                        bound,
                        Action::Finish(Completion::Fail(error)),
                    ),
                    Ok(_) => (RunProcess::Beginning, bound, Action::Call(Primitive::BeginProcess)),
                }
            },
            (RunProcess::Beginning, Event::Reply(code)) => {
                let (rebound, begun) = begin_spec(bound, code);
                match begun {
                    Err(error) => (
                        RunProcess::Releasing(Completion::Fail(error)),
                        rebound,
                        Action::Call(Primitive::ReleaseLock),
                    ),
                    Ok(_) => (RunProcess::Running, rebound, Action::RunBody),
                }
            },
            (RunProcess::Running, Event::Body(outcome)) => (
                RunProcess::Ending(outcome),
                bound,
                Action::Call(Primitive::EndProcess),
            ),
            (RunProcess::Ending(outcome), Event::Reply(code)) => {
                let (unbound, ended) = end_spec(bound, code);
                (
                    RunProcess::Releasing(completion_after_end(outcome, ended)),
                    unbound,
                    Action::Call(Primitive::ReleaseLock),
                )
            },
            (RunProcess::Releasing(so_far), Event::Reply(code)) => {
                let completion = completion_after_unlock(so_far, code);
                (RunProcess::Finished(completion), bound, Action::Finish(completion))
            },
            _ => (self, bound, Action::Rejected),
        }
    }

    /// Whether the process of this run exists: it has been begun and its end
    /// has not been asked for yet.
    pub open spec fn has_process(self) -> bool {
        self is Running
    }

    /// The state and the thread's binding after the events `events`, and the
    /// actions that the machine answered them with, in order.
    pub open spec fn run(self, bound: Option<i32>, events: Seq<Event>) -> (
        RunProcess,
        Option<i32>,
        Seq<Action>,
    )
        decreases events.len(),
    {
        if events.len() == 0 {
            (self, bound, Seq::empty())
        } else {
            let (state, binding, actions) = self.run(bound, events.drop_last());
            let (after, rebound, action) = state.next(binding, events.last());
            (after, rebound, actions.push(action))
        }
    }

    /// How often, over the events `events`, the engine granted an
    /// `AcquireLock` that the machine had asked for.
    pub open spec fn locks_granted(self, bound: Option<i32>, events: Seq<Event>) -> nat
        decreases events.len(),
    {
        if events.len() == 0 {
            0
        } else {
            let (state, _, _) = self.run(bound, events.drop_last());
            let granted = state is Acquiring && (events.last() matches Event::Reply(code)
                && Primitive::AcquireLock.accepts(code as int));
            self.locks_granted(bound, events.drop_last()) + if granted {
                1nat
            } else {
                0nat
            }
        }
    }

    /// How often, over the events `events`, a process was begun: a reply to
    /// `BeginProcess` that bound the thread.
    pub open spec fn processes_begun(self, bound: Option<i32>, events: Seq<Event>) -> nat
        decreases events.len(),
    {
        if events.len() == 0 {
            0
        } else {
            let (state, binding, _) = self.run(bound, events.drop_last());
            let begun = state is Beginning && (events.last() matches Event::Reply(code)
                && begin_spec(binding, code).1 is Ok);
            self.processes_begun(bound, events.drop_last()) + if begun {
                1nat
            } else {
                0nat
            }
        }
    }

    /// Starts a run on the thread that `handle` belongs to. Where the thread
    /// already owns a process the run is over before it began, with
    /// `ProcessExists`, and no primitive is called.
    pub fn new(handle: &ProcessHandle) -> (machine: RunProcess)
        ensures
            machine == RunProcess::start(handle@),
    {
        if handle.is_bound() {
            RunProcess::Finished(Completion::Fail(Error::ProcessExists))
        } else {
            RunProcess::Acquiring
        }
    }

    /// What the driver has to do now.
    pub fn action(&self) -> (action: Action)
        ensures
            action == self.pending(),
    {
        match self {
            RunProcess::Acquiring => Action::Call(Primitive::AcquireLock),
            RunProcess::Beginning => Action::Call(Primitive::BeginProcess),
            RunProcess::Running => Action::RunBody,
            RunProcess::Ending(_) => Action::Call(Primitive::EndProcess),
            RunProcess::Releasing(_) => Action::Call(Primitive::ReleaseLock),
            RunProcess::Finished(completion) => Action::Finish(*completion),
        }
    }

    /// Takes what the driver reports and says what to do next; binds and
    /// unbinds `handle` as the process begins and ends. An event that the
    /// machine is not waiting for is rejected and changes nothing.
    pub fn step(&mut self, handle: &mut ProcessHandle, event: Event) -> (action: Action)
        ensures
            (*final(self), final(handle)@, action) == old(self).next(old(handle)@, event),
    {
        match (*self, event) {
            (RunProcess::Acquiring, Event::Reply(code)) => {
                match Primitive::AcquireLock.check(code) {
                    Err(error) => {
                        *self = RunProcess::Finished(Completion::Fail(error));
                        Action::Finish(Completion::Fail(error))
                    },
                    Ok(_) => {
                        *self = RunProcess::Beginning;
                        Action::Call(Primitive::BeginProcess)
                    },
                }
            },
            (RunProcess::Beginning, Event::Reply(code)) => {
                match handle.begin(code) {
                    Err(error) => {
                        *self = RunProcess::Releasing(Completion::Fail(error));
                        Action::Call(Primitive::ReleaseLock)
                    },
                    Ok(_) => {
                        *self = RunProcess::Running;
                        Action::RunBody
                    },
                }
            },
            (RunProcess::Running, Event::Body(outcome)) => {
                *self = RunProcess::Ending(outcome);
                Action::Call(Primitive::EndProcess)
            },
            (RunProcess::Ending(outcome), Event::Reply(code)) => {
                let ended = handle.end(code);
                let so_far = match outcome {
                    BodyOutcome::Unwound => Completion::Unwind,
                    _ => match ended {
                        Err(error) => Completion::Fail(error),
                        Ok(_) => Completion::Body,
                    },
                };
                *self = RunProcess::Releasing(so_far);
                Action::Call(Primitive::ReleaseLock)
            },
            (RunProcess::Releasing(so_far), Event::Reply(code)) => {
                let completion = match so_far {
                    Completion::Unwind => Completion::Unwind,
                    _ => match Primitive::ReleaseLock.check(code) {
                        Err(error) => Completion::Fail(error),
                        Ok(_) => so_far,
                    },
                };
                *self = RunProcess::Finished(completion);
                Action::Finish(completion)
            },
            _ => Action::Rejected,
        }
    }
}

/// A run inside a run is refused: on a thread that owns a process the
/// machine starts finished, with `ProcessExists`, and asks for no primitive.
pub proof fn lemma_nested_run_is_refused(bound: Option<i32>)
    requires
        bound is Some,
    ensures
        RunProcess::start(bound).pending() == Action::Finish(
            Completion::Fail(Error::ProcessExists),
        ),
{
}

/// The order of a run whose every step is granted: lock, begin, body, end,
/// release, in that order and each once. The thread is bound to the new
/// process while the body runs and unbound when the run is over, and the
/// run ends as `completion_after_unlock` says.
pub proof fn lemma_run_order(acquire: i32, begin: i32, outcome: BodyOutcome, end: i32, release: i32)
    requires
        Primitive::AcquireLock.accepts(acquire as int),
        Primitive::BeginProcess.accepts(begin as int),
    ensures
        ({
            let s0 = RunProcess::start(None);
            let (s1, b1, a1) = s0.next(None, Event::Reply(acquire));
            let (s2, b2, a2) = s1.next(b1, Event::Reply(begin));
            let (s3, b3, a3) = s2.next(b2, Event::Body(outcome));
            let (s4, b4, a4) = s3.next(b3, Event::Reply(end));
            let (s5, b5, a5) = s4.next(b4, Event::Reply(release));
            &&& s0.pending() == Action::Call(Primitive::AcquireLock)
            &&& a1 == Action::Call(Primitive::BeginProcess)
            &&& a2 == Action::RunBody
            &&& b2 == Some(begin)
            &&& a3 == Action::Call(Primitive::EndProcess)
            &&& a4 == Action::Call(Primitive::ReleaseLock)
            &&& b4 is None
            &&& a5 == Action::Finish(
                completion_after_unlock(
                    completion_after_end(outcome, Primitive::EndProcess.check_spec(end)),
                    release,
                ),
            )
            &&& b5 is None
        }),
{
}

/// A process that cannot be begun leaves the lock released and the body
/// unrun: the release is asked for at once, and the run then fails.
pub proof fn lemma_failed_begin_releases_lock(acquire: i32, begin: i32, release: i32)
    requires
        Primitive::AcquireLock.accepts(acquire as int),
        !Primitive::BeginProcess.accepts(begin as int),
    ensures
        ({
            let (s1, b1, a1) = RunProcess::start(None).next(None, Event::Reply(acquire));
            let (s2, b2, a2) = s1.next(b1, Event::Reply(begin));
            let (s3, b3, a3) = s2.next(b2, Event::Reply(release));
            &&& a2 == Action::Call(Primitive::ReleaseLock)
            &&& a3 == Action::Finish(
                completion_after_unlock(
                    Completion::Fail(
                        Error::Engine { primitive: Primitive::BeginProcess, code: begin },
                    ),
                    release,
                ),
            )
            &&& b3 is None
        }),
{
}

/// A body that unwinds has its process ended and the lock released, in that
/// order, and then its own unwind resumed, whatever the engine answered to
/// either.
pub proof fn lemma_unwinding_body_is_cleaned_up(bound: Option<i32>, end: i32, release: i32)
    ensures
        ({
            let (s1, b1, a1) = RunProcess::Running.next(bound, Event::Body(BodyOutcome::Unwound));
            let (s2, b2, a2) = s1.next(b1, Event::Reply(end));
            let (s3, b3, a3) = s2.next(b2, Event::Reply(release));
            &&& a1 == Action::Call(Primitive::EndProcess)
            &&& a2 == Action::Call(Primitive::ReleaseLock)
            &&& b2 is None
            &&& a3 == Action::Finish(Completion::Unwind)
        }),
{
}

/// No step finishes a run while the lock is held; the lock is let go of only
/// by asking for `ReleaseLock`; and a rejected event changes nothing.
pub proof fn lemma_run_never_finishes_holding_the_lock(
    state: RunProcess,
    bound: Option<i32>,
    event: Event,
)
    ensures
        state.next(bound, event).2 is Finish ==> !state.holds_lock() && !state.next(
            bound,
            event,
        ).0.holds_lock(),
        state.holds_lock() && !state.next(bound, event).0.holds_lock() ==> state.next(
            bound,
            event,
        ).2 == Action::Call(Primitive::ReleaseLock),
        state.next(bound, event).2 is Rejected ==> state.next(bound, event).0 == state
            && state.next(bound, event).1 == bound,
{
}

/// Along every run, from any state and under any events: each lock that was
/// granted is either still held or has had its release asked for, and each
/// process that was begun either still exists or has had its end asked for.
/// Nothing is released or ended that was not acquired or begun.
pub proof fn lemma_run_balance_from(state: RunProcess, bound: Option<i32>, events: Seq<Event>)
    ensures
        ({
            let (after, _, actions) = state.run(bound, events);
            let held_before: nat = if state.holds_lock() {
                1
            } else {
                0
            };
            let held_after: nat = if after.holds_lock() {
                1
            } else {
                0
            };
            let live_before: nat = if state.has_process() {
                1
            } else {
                0
            };
            let live_after: nat = if after.has_process() {
                1
            } else {
                0
            };
            &&& state.locks_granted(bound, events) + held_before == occurrences(
                actions,
                Action::Call(Primitive::ReleaseLock),
            ) + held_after
            &&& state.processes_begun(bound, events) + live_before == occurrences(
                actions,
                Action::Call(Primitive::EndProcess),
            ) + live_after
        }),
    decreases events.len(),
{
    if events.len() > 0 {
        lemma_run_balance_from(state, bound, events.drop_last());
        let (before, binding, actions) = state.run(bound, events.drop_last());
        let (after, rebound, action) = before.next(binding, events.last());
        assert(actions.push(action).drop_last() == actions);
    }
}

/// A run moves forward only: the lock is granted at most once and a process
/// begun at most once, and a thread that was unbound at the start is bound
/// only while the process of the run exists or is being ended.
proof fn lemma_run_moves_forward(state: RunProcess, bound: Option<i32>, events: Seq<Event>)
    ensures
        state.locks_granted(bound, events) <= 1,
        state.processes_begun(bound, events) <= 1,
        state.locks_granted(bound, events) == 1 ==> !(state.run(bound, events).0 is Acquiring),
        state.processes_begun(bound, events) == 1 ==> !(state.run(bound, events).0 is Acquiring)
            && !(state.run(bound, events).0 is Beginning),
        !(state is Acquiring) ==> state.locks_granted(bound, events) == 0 && !(state.run(
            bound,
            events,
        ).0 is Acquiring),
        !(state is Acquiring) && !(state is Beginning) ==> state.processes_begun(bound, events)
            == 0 && !(state.run(bound, events).0 is Beginning),
        (state is Acquiring || state is Finished) && bound is None ==> (state.run(
            bound,
            events,
        ).1 is Some ==> state.run(bound, events).0 is Running || state.run(bound, events).0
            is Ending),
    decreases events.len(),
{
    if events.len() > 0 {
        lemma_run_moves_forward(state, bound, events.drop_last());
        let (before, binding, actions) = state.run(bound, events.drop_last());
        let (after, rebound, action) = before.next(binding, events.last());
    }
}

/// Exactly once: when a run is over, whatever happened on the way, the lock
/// has been released as often as it was granted and the process ended as
/// often as it was begun, each at most once; and the thread, unbound when
/// the run started, is unbound again.
pub proof fn lemma_run_cleans_up_exactly_once(events: Seq<Event>)
    requires
        RunProcess::start(None).run(None, events).0 is Finished,
    ensures
        occurrences(
            RunProcess::start(None).run(None, events).2,
            Action::Call(Primitive::ReleaseLock),
        ) == RunProcess::start(None).locks_granted(None, events),
        occurrences(
            RunProcess::start(None).run(None, events).2,
            Action::Call(Primitive::EndProcess),
        ) == RunProcess::start(None).processes_begun(None, events),
        RunProcess::start(None).locks_granted(None, events) <= 1,
        RunProcess::start(None).processes_begun(None, events) <= 1,
        RunProcess::start(None).run(None, events).1 is None,
{
    lemma_run_balance_from(RunProcess::start(None), None, events);
    lemma_run_moves_forward(RunProcess::start(None), None, events);
}

/// A run on a thread that owns a process asks for nothing and changes
/// nothing, whatever it is told.
pub proof fn lemma_refused_run_does_nothing(bound: Option<i32>, events: Seq<Event>)
    requires
        bound is Some,
    ensures
        RunProcess::start(bound).run(bound, events).0 == RunProcess::start(bound),
        RunProcess::start(bound).run(bound, events).1 == bound,
        forall|i: int|
            0 <= i < events.len() ==> RunProcess::start(bound).run(bound, events).2[i]
                == Action::Rejected,
        RunProcess::start(bound).run(bound, events).2.len() == events.len(),
    decreases events.len(),
{
    if events.len() > 0 {
        lemma_refused_run_does_nothing(bound, events.drop_last());
    }
}

} // verus!
