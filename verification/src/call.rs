//! Calling a contract inside a process.
//!
//! The sender is set and the arguments are pushed, in order; then the body
//! runs. What the body wrote is committed exactly when it returned success.
//! The per-call state of the engine is cleared on every way out, so that the
//! next call on the same process starts clean.

use vstd::prelude::*;
use vstd::slice::slice_subrange;
use crate::protocol::{Action, BodyOutcome, Completion, Error, Event, Primitive, occurrences};
use crate::types::Address;

verus! {

/// Where a call stands.
#[derive(Clone, Copy, Debug, PartialEq, Eq, Structural)]
pub enum CallStage {
    /// `SetSender` has been asked for.
    Sender,
    /// The argument with this index has been handed over for pushing.
    Argument(usize),
    /// The body is running.
    Body,
    /// The body returned success and `CommitPendingState` has been asked for.
    Commit,
    /// `ClearCallState` has been asked for; the call will end as recorded
    /// unless it ends with the body's result and the clearing fails.
    Clear(Completion),
    /// The call is over.
    Finished(Completion),
}

/// The state of one call: its sender, its arguments and where it stands.
#[derive(Clone, Copy, Debug, PartialEq, Eq)]
pub struct ContractCall<'a> {
    pub sender: &'a Address,
    pub args: &'a Vec<Vec<u8>>,
    pub stage: CallStage,
}

/// How a call that stood at `so_far` ends once the engine has answered
/// `clear` to `ClearCallState`: an earlier failure or an unwind stands, and
/// the body's result stands unless the clearing failed.
pub open spec fn completion_after_clear(so_far: Completion, clear: i32) -> Completion {
    if so_far is Body {
        match Primitive::ClearCallState.check_spec(clear) {
            Err(error) => Completion::Fail(error),
            Ok(_) => Completion::Body,
        }
    } else {
        so_far
    }
}

impl<'a> ContractCall<'a> {
    /// The state in which a call from `sender` with the arguments `args`
    /// starts.
    pub open spec fn start(sender: &'a Address, args: &'a Vec<Vec<u8>>) -> ContractCall<'a> {
        ContractCall { sender, args, stage: CallStage::Sender }
    }

    /// The same call at another stage.
    pub open spec fn at(self, stage: CallStage) -> ContractCall<'a> {
        ContractCall { sender: self.sender, args: self.args, stage }
    }

    /// The state and action once the arguments below `index` are pushed: the
    /// next argument, or the body when none is left.
    pub open spec fn proceed(self, index: int) -> (ContractCall<'a>, Action) {
        if 0 <= index < self.args@.len() {
            (self.at(CallStage::Argument(index as usize)), Action::PushArgument(index as usize))
        } else {
            (self.at(CallStage::Body), Action::RunBody)
        }
    }

    /// The state and action when the call turns to clearing, to end as
    /// `so_far` says.
    pub open spec fn clearing(self, so_far: Completion) -> (ContractCall<'a>, Action) {
        (self.at(CallStage::Clear(so_far)), Action::Call(Primitive::ClearCallState))
    }

    /// What the machine is waiting for its driver to do.
    pub open spec fn pending(self) -> Action {
        match self.stage {
            CallStage::Sender => Action::Call(Primitive::SetSender),
            CallStage::Argument(index) => Action::PushArgument(index),
            CallStage::Body => Action::RunBody,
            CallStage::Commit => Action::Call(Primitive::CommitPendingState),
            CallStage::Clear(_) => Action::Call(Primitive::ClearCallState),
            CallStage::Finished(completion) => Action::Finish(completion),
        }
    }

    /// The bytes that go with the pending action: the sender with
    /// `SetSender`, the argument itself with `PushArgument`, and nothing
    /// with any other.
    pub open spec fn payload_spec(self) -> Seq<u8> {
        match self.stage {
            CallStage::Sender => self.sender@,
            CallStage::Argument(index) => if index < self.args@.len() {
                self.args@[index as int]@
            } else {
                Seq::empty()
            },
            _ => Seq::empty(),
        }
    }

    /// Whether clearing the call state has been asked for.
    pub open spec fn clearing_asked(self) -> bool {
        self.stage is Clear || self.stage is Finished
    }

    /// The transition function: the state after `event`, and the next action.
    pub open spec fn next(self, event: Event) -> (ContractCall<'a>, Action) {
        match (self.stage, event) {
            (CallStage::Sender, Event::Reply(code)) => {
                match Primitive::SetSender.check_spec(code) {
                    Err(error) => self.clearing(Completion::Fail(error)),
                    Ok(_) => self.proceed(0),
                }
            },
            (CallStage::Argument(index), Event::Reply(code)) => {
                match Primitive::PushArgument.check_spec(code) {
                    Err(error) => self.clearing(Completion::Fail(error)),
                    Ok(_) => self.proceed(index + 1),
                }
            },
            (CallStage::Body, Event::Body(outcome)) => {
                match outcome {
                    BodyOutcome::Returned => (
                        self.at(CallStage::Commit),
                        Action::Call(Primitive::CommitPendingState),
                    ),
                    BodyOutcome::Failed => self.clearing(Completion::Body),
                    BodyOutcome::Unwound => self.clearing(Completion::Unwind),
                }
            },
            (CallStage::Commit, Event::Reply(code)) => {
                match Primitive::CommitPendingState.check_spec(code) {
                    Err(error) => self.clearing(Completion::Fail(error)),
                    Ok(_) => self.clearing(Completion::Body),
                }
            },
            (CallStage::Clear(so_far), Event::Reply(code)) => {
                let completion = completion_after_clear(so_far, code);
                (self.at(CallStage::Finished(completion)), Action::Finish(completion))
            },
            _ => (self, Action::Rejected),
        }
    }

    /// The state after the events `events`, and the actions that the machine
    /// answered them with, in order.
    pub open spec fn run(self, events: Seq<Event>) -> (ContractCall<'a>, Seq<Action>)
        decreases events.len(),
    {
        if events.len() == 0 {
            (self, Seq::empty())
        } else {
            let (state, actions) = self.run(events.drop_last());
            let (after, action) = state.next(events.last());
            (after, actions.push(action))
        }
    }

    /// How often, over the events `events`, a body that the machine had
    /// asked for returned success.
    pub open spec fn bodies_succeeded(self, events: Seq<Event>) -> nat
        decreases events.len(),
    {
        if events.len() == 0 {
            0
        } else {
            let (state, _) = self.run(events.drop_last());
            let succeeded = state.stage is Body && events.last() == Event::Body(
                BodyOutcome::Returned,
            );
            self.bodies_succeeded(events.drop_last()) + if succeeded {
                1nat
            } else {
                0nat
            }
        }
    }

    /// Starts a call from `sender` with the arguments `args`.
    pub fn new(sender: &'a Address, args: &'a Vec<Vec<u8>>) -> (machine: ContractCall<'a>)
        ensures
            machine == ContractCall::start(sender, args),
    {
        ContractCall { sender, args, stage: CallStage::Sender }
    }

    /// What the driver has to do now.
    pub fn action(&self) -> (action: Action)
        ensures
            action == self.pending(),
    {
        match self.stage {
            CallStage::Sender => Action::Call(Primitive::SetSender),
            CallStage::Argument(index) => Action::PushArgument(index),
            CallStage::Body => Action::RunBody,
            CallStage::Commit => Action::Call(Primitive::CommitPendingState),
            CallStage::Clear(_) => Action::Call(Primitive::ClearCallState),
            CallStage::Finished(completion) => Action::Finish(completion),
        }
    }

    /// The bytes that the driver hands to the engine with the action.
    pub fn payload(&self) -> (bytes: &'a [u8])
        ensures
            bytes@ == self.payload_spec(),
    {
        let sender: &'a [u8] = self.sender.as_slice();
        match self.stage {
            CallStage::Sender => sender,
            CallStage::Argument(index) => {
                if index < self.args.len() {
                    let args: &'a Vec<Vec<u8>> = self.args;
                    args[index].as_slice()
                } else {
                    slice_subrange(sender, 0, 0)
                }
            },
            _ => slice_subrange(sender, 0, 0),
        }
    }

    /// Moves on to the argument with index `index`, or to the body when no
    /// argument has that index.
    fn move_on(&mut self, index: usize) -> (action: Action)
        ensures
            (*final(self), action) == old(self).proceed(index as int),
    {
        if index < self.args.len() {
            self.stage = CallStage::Argument(index);
            Action::PushArgument(index)
        } else {
            self.stage = CallStage::Body;
            Action::RunBody
        }
    }

    /// Turns to clearing, to end as `so_far` says.
    fn clear(&mut self, so_far: Completion) -> (action: Action)
        ensures
            (*final(self), action) == old(self).clearing(so_far),
    {
        self.stage = CallStage::Clear(so_far);
        Action::Call(Primitive::ClearCallState)
    }

    /// Takes what the driver reports and says what to do next. An event that
    /// the machine is not waiting for is rejected and changes nothing.
    pub fn step(&mut self, event: Event) -> (action: Action)
        ensures
            (*final(self), action) == old(self).next(event),
    {
        match (self.stage, event) {
            (CallStage::Sender, Event::Reply(code)) => {
                match Primitive::SetSender.check(code) {
                    Err(error) => self.clear(Completion::Fail(error)),
                    Ok(_) => self.move_on(0),
                }
            },
            (CallStage::Argument(index), Event::Reply(code)) => {
                match Primitive::PushArgument.check(code) {
                    Err(error) => self.clear(Completion::Fail(error)),
                    Ok(_) => {
                        if index < self.args.len() {
                            self.move_on(index + 1)
                        } else {
                            self.stage = CallStage::Body;
                            Action::RunBody
                        }
                    },
                }
            },
            (CallStage::Body, Event::Body(outcome)) => {
                match outcome {
                    BodyOutcome::Returned => {
                        self.stage = CallStage::Commit;
                        Action::Call(Primitive::CommitPendingState)
                    },
                    BodyOutcome::Failed => self.clear(Completion::Body),
                    BodyOutcome::Unwound => self.clear(Completion::Unwind),
                }
            },
            (CallStage::Commit, Event::Reply(code)) => {
                match Primitive::CommitPendingState.check(code) {
                    Err(error) => self.clear(Completion::Fail(error)),
                    Ok(_) => self.clear(Completion::Body),
                }
            },
            (CallStage::Clear(so_far), Event::Reply(code)) => {
                let completion = match so_far {
                    Completion::Body => match Primitive::ClearCallState.check(code) {
                        Err(error) => Completion::Fail(error),
                        Ok(_) => Completion::Body,
                    },
                    _ => so_far,
                };
                self.stage = CallStage::Finished(completion);
                Action::Finish(completion)
            },
            _ => Action::Rejected,
        }
    }
}

/// The state of the call `call` after the engine has accepted the sender and
/// each argument pushed so far: `accepted` counts those replies.
pub open spec fn after_accepted<'a>(call: ContractCall<'a>, accepted: nat) -> ContractCall<'a>
    decreases accepted,
{
    if accepted == 0 {
        call
    } else {
        after_accepted(call, (accepted - 1) as nat).next(Event::Reply(0)).0
    }
}

/// The sender is set first, then the arguments are pushed in order, each
/// once and each with its own bytes, and the body runs when the last one has
/// been accepted.
pub proof fn lemma_arguments_are_pushed_in_order(
    sender: &Address,
    args: &Vec<Vec<u8>>,
    accepted: nat,
)
    requires
        accepted <= args@.len() + 1,
    ensures
        ({
            let state = after_accepted(ContractCall::start(sender, args), accepted);
            &&& state.sender == sender
            &&& state.args == args
            &&& accepted == 0 ==> state.pending() == Action::Call(Primitive::SetSender)
                && state.payload_spec() == sender@
            &&& 0 < accepted <= args@.len() ==> state.pending() == Action::PushArgument(
                (accepted - 1) as usize,
            ) && state.payload_spec() == args@[accepted - 1]@
            &&& accepted == args@.len() + 1 ==> state.pending() == Action::RunBody
        }),
    decreases accepted,
{
    assert(args@.len() == args.len());
    if accepted > 0 {
        lemma_arguments_are_pushed_in_order(sender, args, (accepted - 1) as nat);
    }
}

/// A body that returns success has its writes committed and the call state
/// cleared, in that order, before the call finishes.
pub proof fn lemma_success_commits_then_clears(call: ContractCall, commit: i32, clear: i32)
    requires
        call.stage is Body,
    ensures
        ({
            let (s1, a1) = call.next(Event::Body(BodyOutcome::Returned));
            let (s2, a2) = s1.next(Event::Reply(commit));
            let (s3, a3) = s2.next(Event::Reply(clear));
            &&& a1 == Action::Call(Primitive::CommitPendingState)
            &&& a2 == Action::Call(Primitive::ClearCallState)
            &&& a3 == Action::Finish(
                match Primitive::CommitPendingState.check_spec(commit) {
                    Err(error) => Completion::Fail(error),
                    Ok(_) => completion_after_clear(Completion::Body, clear),
                },
            )
        }),
{
}

/// A body that fails, or unwinds, has nothing committed: the call state is
/// cleared at once and the call finishes with the body's own failure, unless
/// the clearing itself failed.
pub proof fn lemma_failure_clears_without_commit(
    call: ContractCall,
    outcome: BodyOutcome,
    clear: i32,
)
    requires
        call.stage is Body,
        outcome != BodyOutcome::Returned,
    ensures
        ({
            let (s1, a1) = call.next(Event::Body(outcome));
            let (s2, a2) = s1.next(Event::Reply(clear));
            &&& a1 == Action::Call(Primitive::ClearCallState)
            &&& a2 == Action::Finish(
                if outcome == BodyOutcome::Unwound {
                    Completion::Unwind
                } else {
                    completion_after_clear(Completion::Body, clear)
                },
            )
        }),
{
}

/// `CommitPendingState` is asked for only in answer to a body that returned
/// success; a call finishes only in answer to the engine's reply to
/// `ClearCallState`; and a rejected event changes nothing.
pub proof fn lemma_commit_and_clear_discipline(state: ContractCall, event: Event)
    ensures
        state.next(event).1 == Action::Call(Primitive::CommitPendingState) ==> state.stage
            is Body && event == Event::Body(BodyOutcome::Returned),
        state.next(event).1 is Finish ==> state.stage is Clear && event is Reply,
        state.next(event).1 is Rejected ==> state.next(event).0 == state,
{
}

/// A setup step that the engine refuses skips the body and the commit: the
/// call state is cleared at once and the call fails with the refusal.
pub proof fn lemma_refused_setup_skips_body(state: ContractCall, code: i32, clear: i32)
    requires
        state.stage is Sender || state.stage is Argument,
        code < 0,
    ensures
        ({
            let (s1, a1) = state.next(Event::Reply(code));
            let (s2, a2) = s1.next(Event::Reply(clear));
            &&& a1 == Action::Call(Primitive::ClearCallState)
            &&& a2 == Action::Finish(
                Completion::Fail(
                    Error::Engine {
                        primitive: if state.stage is Sender {
                            Primitive::SetSender
                        } else {
                            Primitive::PushArgument
                        },
                        code,
                    },
                ),
            )
        }),
{
}

/// Along every run, from any state and under any events: a commit is asked
/// for once for each body that returned success and never otherwise,
/// clearing is asked for once, on the way into the last stages, and the
/// sender and the arguments stay what they were.
pub proof fn lemma_call_balance_from(state: ContractCall, events: Seq<Event>)
    ensures
        ({
            let (after, actions) = state.run(events);
            let cleared_before: nat = if state.clearing_asked() {
                1
            } else {
                0
            };
            let cleared_after: nat = if after.clearing_asked() {
                1
            } else {
                0
            };
            &&& occurrences(actions, Action::Call(Primitive::CommitPendingState))
                == state.bodies_succeeded(events)
            &&& occurrences(actions, Action::Call(Primitive::ClearCallState)) + cleared_before
                == cleared_after
            &&& after.sender == state.sender
            &&& after.args == state.args
        }),
    decreases events.len(),
{
    if events.len() > 0 {
        lemma_call_balance_from(state, events.drop_last());
        let (before, actions) = state.run(events.drop_last());
        let (after, action) = before.next(events.last());
        assert(actions.push(action).drop_last() == actions);
    }
}

/// Whether the body of the call is behind it, or was skipped.
spec fn past_body(state: ContractCall) -> bool {
    state.stage is Commit || state.stage is Clear || state.stage is Finished
}

/// A body succeeds at most once in a call, and never in a call that is past
/// its body.
proof fn lemma_body_runs_once(state: ContractCall, events: Seq<Event>)
    ensures
        state.bodies_succeeded(events) <= 1,
        state.bodies_succeeded(events) == 1 ==> past_body(state.run(events).0),
        past_body(state) ==> state.bodies_succeeded(events) == 0 && past_body(state.run(events).0),
    decreases events.len(),
{
    if events.len() > 0 {
        lemma_body_runs_once(state, events.drop_last());
    }
}

/// Commit or discard, and always clear: when a call is over, whatever
/// happened on the way, the pending state has been committed exactly if the
/// body returned success, and the call state has been cleared exactly once.
pub proof fn lemma_call_commits_on_success_and_clears_once(
    sender: &Address,
    args: &Vec<Vec<u8>>,
    events: Seq<Event>,
)
    requires
        ContractCall::start(sender, args).run(events).0.stage is Finished,
    ensures
        occurrences(
            ContractCall::start(sender, args).run(events).1,
            Action::Call(Primitive::CommitPendingState),
        ) == ContractCall::start(sender, args).bodies_succeeded(events),
        ContractCall::start(sender, args).bodies_succeeded(events) <= 1,
        occurrences(
            ContractCall::start(sender, args).run(events).1,
            Action::Call(Primitive::ClearCallState),
        ) == 1,
{
    lemma_call_balance_from(ContractCall::start(sender, args), events);
    lemma_body_runs_once(ContractCall::start(sender, args), events);
}

} // verus!
