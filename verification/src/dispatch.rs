//! Dispatching a call from one contract to another through the registry.
//!
//! The callee runs inside its own address scope: the scope is entered before
//! the callee is invoked and left after it, whether the callee succeeded or
//! not. A successful callee's return value is stored in the value table and
//! the slot's id is handed back; a failed callee's code is handed back as it
//! is. A pair that was never registered aborts the run.

use vstd::prelude::*;
use vstd::slice::slice_subrange;
use crate::protocol::{
    Action, Completion, Error, Event, Primitive, lemma_occurrences_after_first, occurrences,
};
use crate::registry::Registry;
use crate::types::address_of;
use crate::values::ValueTable;

verus! {

/// Where a dispatch stands.
#[derive(Clone, Copy, Debug, PartialEq, Eq, Structural)]
pub enum DispatchStage {
    /// `EnterAddressScope` has been asked for.
    Entering,
    /// The callee's scope is current and `SetArguments` has been asked for.
    Arguments,
    /// The callee is running.
    Invoking,
    /// The callee succeeded and its return value is being read.
    Reading,
    /// `LeaveAddressScope` has been asked for; the dispatch will end as
    /// recorded unless leaving fails.
    Leaving(Completion),
    /// The dispatch is over.
    Finished(Completion),
}

/// The state of one dispatch: the callee's address and the arguments, both
/// as the raw bytes of the call, and where the dispatch stands.
#[derive(Clone, Copy, Debug, PartialEq, Eq)]
pub struct Dispatch<'a> {
    pub address: &'a [u8],
    pub arguments: &'a [u8],
    pub stage: DispatchStage,
}

/// How a dispatch that stood at `so_far` ends once the engine has answered
/// `leave` to `LeaveAddressScope`: a failure to leave aborts the run, as
/// does a failure recorded earlier.
pub open spec fn completion_after_leave(so_far: Completion, leave: i32) -> Completion {
    if so_far is Abort {
        so_far
    } else {
        match Primitive::LeaveAddressScope.check_spec(leave) {
            Err(error) => Completion::Abort(error),
            Ok(_) => so_far,
        }
    }
}

/// The table after, and the result of, storing `value` as the return value
/// of a dispatch: a new slot whose id is handed back, or an abort where the
/// id would not fit the code.
pub open spec fn store_spec(table: Seq<Seq<u8>>, value: Seq<u8>) -> (Seq<Seq<u8>>, Completion) {
    if table.len() <= i32::MAX {
        (table.push(value), Completion::Code(table.len() as i32))
    } else {
        (table, Completion::Abort(Error::SlotsExhausted))
    }
}

impl DispatchStage {
    /// The state in which a dispatch starts: a pair that is not registered
    /// aborts the run before the engine is touched.
    pub open spec fn start(found: bool) -> DispatchStage {
        if found {
            DispatchStage::Entering
        } else {
            DispatchStage::Finished(Completion::Abort(Error::FunctionNotFound))
        }
    }

    /// What the machine is waiting for its driver to do.
    pub open spec fn pending(self) -> Action {
        match self {
            DispatchStage::Entering => Action::Call(Primitive::EnterAddressScope),
            DispatchStage::Arguments => Action::Call(Primitive::SetArguments),
            DispatchStage::Invoking => Action::Invoke,
            DispatchStage::Reading => Action::ReadValue,
            DispatchStage::Leaving(_) => Action::Call(Primitive::LeaveAddressScope),
            DispatchStage::Finished(completion) => Action::Finish(completion),
        }
    }

    /// Whether the callee's scope has been entered and leaving it has not
    /// been asked for yet.
    pub open spec fn in_scope(self) -> bool {
        self is Arguments || self is Invoking || self is Reading
    }

    /// The transition function: the state and the value table after
    /// `event`, and the next action.
    pub open spec fn next(self, table: Seq<Seq<u8>>, event: Event) -> (
        DispatchStage,
        Seq<Seq<u8>>,
        Action,
    ) {
        match (self, event) {
            (DispatchStage::Entering, Event::Reply(code)) => {
                match Primitive::EnterAddressScope.check_spec(code) {
                    Err(error) => (
                        DispatchStage::Finished(Completion::Abort(error)),
                        table,
                        Action::Finish(Completion::Abort(error)),
                    ),
                    Ok(_) => (DispatchStage::Arguments, table, Action::Call(Primitive::SetArguments)),
                }
            },
            (DispatchStage::Arguments, Event::Reply(code)) => {
                match Primitive::SetArguments.check_spec(code) {
                    Err(error) => (
                        DispatchStage::Leaving(Completion::Abort(error)),
                        table,
                        Action::Call(Primitive::LeaveAddressScope),
                    ),
                    Ok(_) => (DispatchStage::Invoking, table, Action::Invoke),
                }
            },
            (DispatchStage::Invoking, Event::Reply(code)) => {
                if code >= 0 {
                    (DispatchStage::Reading, table, Action::ReadValue)
                } else {
                    (
                        DispatchStage::Leaving(Completion::Code(code)),
                        table,
                        Action::Call(Primitive::LeaveAddressScope),
                    )
                }
            },
            (DispatchStage::Reading, Event::Value(value)) => {
                let (stored, so_far) = store_spec(table, value@);
                (DispatchStage::Leaving(so_far), stored, Action::Call(Primitive::LeaveAddressScope))
            },
            (DispatchStage::Reading, Event::ValueFailed(error)) => (
                DispatchStage::Leaving(Completion::Abort(error)),
                table,
                Action::Call(Primitive::LeaveAddressScope),
            ),
            (DispatchStage::Leaving(so_far), Event::Reply(code)) => {
                let completion = completion_after_leave(so_far, code);
                (DispatchStage::Finished(completion), table, Action::Finish(completion))
            },
            _ => (self, table, Action::Rejected),
        }
    }

    /// The state and the table after the events `events`, and the actions
    /// that the machine answered them with, in order.
    pub open spec fn run(self, table: Seq<Seq<u8>>, events: Seq<Event>) -> (
        DispatchStage,
        Seq<Seq<u8>>,
        Seq<Action>,
    )
        decreases events.len(),
    {
        if events.len() == 0 {
            (self, table, Seq::empty())
        } else {
            let (state, stored, actions) = self.run(table, events.drop_last());
            let (after, grown, action) = state.next(stored, events.last());
            (after, grown, actions.push(action))
        }
    }

    /// How often, over the events `events`, the engine granted an
    /// `EnterAddressScope` that the machine had asked for.
    pub open spec fn scopes_entered(self, table: Seq<Seq<u8>>, events: Seq<Event>) -> nat
        decreases events.len(),
    {
        if events.len() == 0 {
            0
        } else {
            let (state, _, _) = self.run(table, events.drop_last());
            let granted = state is Entering && (events.last() matches Event::Reply(code)
                && Primitive::EnterAddressScope.accepts(code as int));
            self.scopes_entered(table, events.drop_last()) + if granted {
                1nat
            } else {
                0nat
            }
        }
    }
}

impl<'a> Dispatch<'a> {
    /// The bytes that go with the pending action: the callee's address with
    /// `EnterAddressScope`, the arguments with `SetArguments`, and nothing
    /// with any other.
    pub open spec fn payload_spec(self) -> Seq<u8> {
        match self.stage {
            DispatchStage::Entering => self.address@,
            DispatchStage::Arguments => self.arguments@,
            _ => Seq::empty(),
        }
    }

    /// Starts the dispatch that a raw call names and hands out its callee.
    /// `address` stands for its first twenty bytes, padded with zeros, and
    /// `entry` is the entry-point name as UTF-8 bytes. Where the pair is not
    /// registered there is no callee and the dispatch starts finished, with
    /// an abort.
    pub fn new<'b, F>(
        registry: &'b Registry<F>,
        address: &'a [u8],
        entry: &[u8],
        arguments: &'a [u8],
    ) -> (started: (Dispatch<'a>, Option<&'b F>))
        ensures
            started.0 == (Dispatch {
                address,
                arguments,
                stage: DispatchStage::start(
                    registry@.contains_key((address_of(address@), entry@)),
                ),
            }),
            match started.1 {
                Some(callee) => registry@.contains_key((address_of(address@), entry@)) && *callee
                    == registry@[(address_of(address@), entry@)],
                None => !registry@.contains_key((address_of(address@), entry@)),
            },
    {
        match registry.resolve(address, entry) {
            Some(callee) => (
                Dispatch { address, arguments, stage: DispatchStage::Entering },
                Some(callee),
            ),
            None => (
                Dispatch {
                    address,
                    arguments,
                    stage: DispatchStage::Finished(Completion::Abort(Error::FunctionNotFound)),
                },
                None,
            ),
        }
    }

    /// What the driver has to do now.
    pub fn action(&self) -> (action: Action)
        ensures
            action == self.stage.pending(),
    {
        match self.stage {
            DispatchStage::Entering => Action::Call(Primitive::EnterAddressScope),
            DispatchStage::Arguments => Action::Call(Primitive::SetArguments),
            DispatchStage::Invoking => Action::Invoke,
            DispatchStage::Reading => Action::ReadValue,
            DispatchStage::Leaving(_) => Action::Call(Primitive::LeaveAddressScope),
            DispatchStage::Finished(completion) => Action::Finish(completion),
        }
    }

    /// The bytes that the driver hands to the engine with the action.
    pub fn payload(&self) -> (bytes: &'a [u8])
        ensures
            bytes@ == self.payload_spec(),
    {
        match self.stage {
            DispatchStage::Entering => self.address,
            DispatchStage::Arguments => self.arguments,
            _ => slice_subrange(self.address, 0, 0),
        }
    }

    /// Takes what the driver reports and says what to do next; stores the
    /// callee's return value in `table`. An event that the machine is not
    /// waiting for is rejected and changes nothing. The address and the
    /// arguments stay what they were.
    pub fn step(&mut self, table: &mut ValueTable, event: Event) -> (action: Action)
        ensures
            final(self).address == old(self).address,
            final(self).arguments == old(self).arguments,
            (final(self).stage, final(table)@, action) == old(self).stage.next(
                old(table)@,
                event,
            ),
    {
        match (self.stage, event) {
            (DispatchStage::Entering, Event::Reply(code)) => {
                match Primitive::EnterAddressScope.check(code) {
                    Err(error) => {
                        self.stage = DispatchStage::Finished(Completion::Abort(error));
                        Action::Finish(Completion::Abort(error))
                    },
                    Ok(_) => {
                        self.stage = DispatchStage::Arguments;
                        Action::Call(Primitive::SetArguments)
                    },
                }
            },
            (DispatchStage::Arguments, Event::Reply(code)) => {
                match Primitive::SetArguments.check(code) {
                    Err(error) => {
                        self.stage = DispatchStage::Leaving(Completion::Abort(error));
                        Action::Call(Primitive::LeaveAddressScope)
                    },
                    Ok(_) => {
                        self.stage = DispatchStage::Invoking;
                        Action::Invoke
                    },
                }
            },
            (DispatchStage::Invoking, Event::Reply(code)) => {
                if code >= 0 {
                    self.stage = DispatchStage::Reading;
                    Action::ReadValue
                } else {
                    self.stage = DispatchStage::Leaving(Completion::Code(code));
                    Action::Call(Primitive::LeaveAddressScope)
                }
            },
            (DispatchStage::Reading, Event::Value(value)) => {
                let so_far = if table.len() <= i32::MAX as usize {
                    let id: usize = table.write(value);
                    Completion::Code(id as i32)
                } else {
                    Completion::Abort(Error::SlotsExhausted)
                };
                self.stage = DispatchStage::Leaving(so_far);
                Action::Call(Primitive::LeaveAddressScope)
            },
            (DispatchStage::Reading, Event::ValueFailed(error)) => {
                self.stage = DispatchStage::Leaving(Completion::Abort(error));
                Action::Call(Primitive::LeaveAddressScope)
            },
            (DispatchStage::Leaving(so_far), Event::Reply(code)) => {
                let completion = match so_far {
                    Completion::Abort(_) => so_far,
                    _ => match Primitive::LeaveAddressScope.check(code) {
                        Err(error) => Completion::Abort(error),
                        Ok(_) => so_far,
                    },
                };
                self.stage = DispatchStage::Finished(completion);
                Action::Finish(completion)
            },
            _ => Action::Rejected,
        }
    }
}

/// Dispatching to a pair that was never registered aborts the run: the
/// machine starts finished, with `FunctionNotFound`, and whatever it is told
/// it asks for no primitive, enters no scope and stores nothing.
pub proof fn lemma_unregistered_dispatch_aborts(table: Seq<Seq<u8>>, events: Seq<Event>)
    ensures
        DispatchStage::start(false).pending() == Action::Finish(
            Completion::Abort(Error::FunctionNotFound),
        ),
        DispatchStage::start(false).run(table, events).0 == DispatchStage::start(false),
        DispatchStage::start(false).run(table, events).1 == table,
        DispatchStage::start(false).run(table, events).2.len() == events.len(),
        forall|i: int|
            0 <= i < events.len() ==> DispatchStage::start(false).run(table, events).2[i]
                == Action::Rejected,
    decreases events.len(),
{
    if events.len() > 0 {
        lemma_unregistered_dispatch_aborts(table, events.drop_last());
    }
}

/// Along every run, from any state and under any events, each scope that was
/// entered is either still current or has had its leave asked for, and no
/// leave is asked for without one.
pub proof fn lemma_scopes_balance_from(state: DispatchStage, table: Seq<Seq<u8>>, events: Seq<Event>)
    ensures
        ({
            let (after, _, actions) = state.run(table, events);
            let owed_before: nat = if state.in_scope() {
                1
            } else {
                0
            };
            let owed_after: nat = if after.in_scope() {
                1
            } else {
                0
            };
            state.scopes_entered(table, events) + owed_before == occurrences(
                actions,
                Action::Call(Primitive::LeaveAddressScope),
            ) + owed_after
        }),
    decreases events.len(),
{
    if events.len() > 0 {
        lemma_scopes_balance_from(state, table, events.drop_last());
        let (before, stored, actions) = state.run(table, events.drop_last());
        let (after, grown, action) = before.next(stored, events.last());
        assert(actions.push(action).drop_last() == actions);
    }
}

/// Every scope that a dispatch entered has been left when the dispatch is
/// over, successful or failed, and none is left that was not entered: the
/// number of `LeaveAddressScope` calls is the number of `EnterAddressScope`
/// calls that the engine granted, which is at most one.
pub proof fn lemma_scopes_balance(found: bool, table: Seq<Seq<u8>>, events: Seq<Event>)
    requires
        DispatchStage::start(found).run(table, events).0 is Finished,
    ensures
        occurrences(
            DispatchStage::start(found).run(table, events).2,
            Action::Call(Primitive::LeaveAddressScope),
        ) == DispatchStage::start(found).scopes_entered(table, events),
        DispatchStage::start(found).scopes_entered(table, events) <= 1,
        !found ==> DispatchStage::start(found).scopes_entered(table, events) == 0,
{
    lemma_scopes_balance_from(DispatchStage::start(found), table, events);
    lemma_enter_is_asked_once(DispatchStage::start(found), table, events);
}

/// Everything that a dispatch asks of its driver over the events `events`:
/// the action it starts with, and then its answer to each event.
pub open spec fn all_actions(found: bool, table: Seq<Seq<u8>>, events: Seq<Event>) -> Seq<Action> {
    seq![DispatchStage::start(found).pending()] + DispatchStage::start(found).run(table, events).2
}

/// Call-stack balance: over the lifetime of a dispatch, successful or failed,
/// `EnterAddressScope` and `LeaveAddressScope` are called equally often. The
/// one dispatch that is left out is the one whose scope the engine refused
/// to enter: there is then nothing to leave.
pub proof fn lemma_enter_and_leave_calls_are_equal(
    found: bool,
    table: Seq<Seq<u8>>,
    events: Seq<Event>,
)
    requires
        DispatchStage::start(found).run(table, events).0 is Finished,
        found ==> DispatchStage::start(found).scopes_entered(table, events) == 1,
    ensures
        occurrences(all_actions(found, table, events), Action::Call(Primitive::EnterAddressScope))
            == occurrences(
            all_actions(found, table, events),
            Action::Call(Primitive::LeaveAddressScope),
        ),
        occurrences(all_actions(found, table, events), Action::Call(Primitive::EnterAddressScope))
            == (if found {
            1nat
        } else {
            0nat
        }),
{
    let first = DispatchStage::start(found).pending();
    let answers = DispatchStage::start(found).run(table, events).2;
    lemma_scopes_balance(found, table, events);
    lemma_enter_is_asked_once(DispatchStage::start(found), table, events);
    lemma_occurrences_after_first(first, answers, Action::Call(Primitive::EnterAddressScope));
    lemma_occurrences_after_first(first, answers, Action::Call(Primitive::LeaveAddressScope));
}

/// No step asks for `EnterAddressScope`, and the scope is entered at most
/// once, and not at all by a run that does not start at `Entering`.
proof fn lemma_enter_is_asked_once(state: DispatchStage, table: Seq<Seq<u8>>, events: Seq<Event>)
    ensures
        occurrences(state.run(table, events).2, Action::Call(Primitive::EnterAddressScope)) == 0,
        state.scopes_entered(table, events) <= 1,
        state.scopes_entered(table, events) == 1 ==> !(state.run(table, events).0 is Entering),
        !(state is Entering) ==> state.scopes_entered(table, events) == 0 && !(state.run(
            table,
            events,
        ).0 is Entering),
    decreases events.len(),
{
    if events.len() > 0 {
        lemma_enter_is_asked_once(state, table, events.drop_last());
        let (before, stored, actions) = state.run(table, events.drop_last());
        let (after, grown, action) = before.next(stored, events.last());
        assert(actions.push(action).drop_last() == actions);
    }
}

/// A callee that succeeds: its scope is entered, its arguments are set, it
/// is invoked, its return value is read and stored in a new slot, its scope
/// is left, and the slot's id is handed back.
pub proof fn lemma_successful_dispatch(table: Seq<Seq<u8>>, code: i32, value: Vec<u8>)
    requires
        code >= 0,
        table.len() <= i32::MAX,
    ensures
        ({
            let s0 = DispatchStage::start(true);
            let (s1, t1, a1) = s0.next(table, Event::Reply(0));
            let (s2, t2, a2) = s1.next(t1, Event::Reply(0));
            let (s3, t3, a3) = s2.next(t2, Event::Reply(code));
            let (s4, t4, a4) = s3.next(t3, Event::Value(value));
            let (s5, t5, a5) = s4.next(t4, Event::Reply(0));
            &&& s0.pending() == Action::Call(Primitive::EnterAddressScope)
            &&& a1 == Action::Call(Primitive::SetArguments)
            &&& a2 == Action::Invoke
            &&& a3 == Action::ReadValue
            &&& a4 == Action::Call(Primitive::LeaveAddressScope)
            &&& a5 == Action::Finish(Completion::Code(table.len() as i32))
            &&& t5 == table.push(value@)
        }),
{
}

/// A callee that fails: its scope is left all the same, nothing is stored,
/// and its own code is handed back.
pub proof fn lemma_failed_callee_leaves_scope(table: Seq<Seq<u8>>, code: i32)
    requires
        code < 0,
    ensures
        ({
            let (s1, t1, a1) = DispatchStage::Invoking.next(table, Event::Reply(code));
            let (s2, t2, a2) = s1.next(t1, Event::Reply(0));
            &&& a1 == Action::Call(Primitive::LeaveAddressScope)
            &&& a2 == Action::Finish(Completion::Code(code))
            &&& t2 == table
        }),
{
}

} // verus!
