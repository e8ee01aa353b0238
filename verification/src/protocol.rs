//! The vocabulary shared by all machines: engine primitives, errors, the
//! events a driver reports and the actions it is asked to perform.

use vstd::prelude::*;

verus! {

/// An operation of the state and process engine.
#[derive(Clone, Copy, Debug, PartialEq, Eq, Structural)]
pub enum Primitive {
    /// Create a process; the reply is its id.
    BeginProcess,
    /// Destroy the current process.
    EndProcess,
    /// Set the address of the contract that is running.
    SetContractAddress,
    /// Set the sender of the call.
    SetSender,
    /// Append one argument to the call's argument list.
    PushArgument,
    /// Set the whole argument list of a nested call from its raw bytes.
    SetArguments,
    /// Close the argument list.
    FinalizeArguments,
    /// Reset the per-call state: sender and arguments.
    ClearCallState,
    /// Make the writes of the current process durable.
    CommitPendingState,
    /// Take the execution lock.
    AcquireLock,
    /// Give the execution lock back.
    ReleaseLock,
    /// Fill a buffer with the return value, from an offset on.
    ReadReturnValue,
    /// Fill a buffer with an event's value, from an offset on.
    ReadEvent,
    /// Push the state context of a contract address.
    EnterAddressScope,
    /// Pop the current state context.
    LeaveAddressScope,
}

/// A failure that is reported to the caller as a value.
#[derive(Clone, Copy, Debug, PartialEq, Eq, Structural)]
pub enum Error {
    /// The thread already owns a process.
    ProcessExists,
    /// The engine answered a primitive with a failure code.
    Engine { primitive: Primitive, code: i32 },
    /// The value or event that was asked for does not exist.
    NotFound { primitive: Primitive },
    /// A read claimed more bytes than the buffer it was given can hold.
    Overrun { primitive: Primitive, code: i32 },
    /// No callable is registered under the address and entry name.
    FunctionNotFound,
    /// The value table cannot hand out another id.
    SlotsExhausted,
}

/// How a body handed to a machine came back.
#[derive(Clone, Copy, Debug, PartialEq, Eq, Structural)]
pub enum BodyOutcome {
    /// It returned a success value.
    Returned,
    /// It returned an error value of its own.
    Failed,
    /// It unwound.
    Unwound,
}

/// What the driver reports after it has performed an action.
#[derive(Debug, PartialEq, Eq)]
pub enum Event {
    /// The engine, or an invoked callable, answered with this code.
    Reply(i32),
    /// The body ran and came back this way.
    Body(BodyOutcome),
    /// The callee's return value was read in full: these are its bytes.
    Value(Vec<u8>),
    /// Reading the callee's return value failed.
    ValueFailed(Error),
}

/// How an operation ends.
#[derive(Clone, Copy, Debug, PartialEq, Eq, Structural)]
pub enum Completion {
    /// Hand back what the body returned, success or error, unchanged.
    Body,
    /// Hand back this code: a value slot id, or the callee's failure code.
    Code(i32),
    /// Hand back this error.
    Fail(Error),
    /// Resume the unwind that the body started, unchanged.
    Unwind,
    /// Abort the run: the condition cannot be recovered from.
    Abort(Error),
}

/// What a machine asks its driver to do next.
#[derive(Clone, Copy, Debug, PartialEq, Eq, Structural)]
pub enum Action {
    /// Call this primitive and report its code as `Event::Reply`.
    Call(Primitive),
    /// Push the argument with this index and report the code as `Event::Reply`.
    PushArgument(usize),
    /// Run the body and report how it came back as `Event::Body`.
    RunBody,
    /// Invoke the registered callable and report its code as `Event::Reply`.
    Invoke,
    /// Read the callee's return value and report it as `Event::Value`, or
    /// the failure as `Event::ValueFailed`.
    ReadValue,
    /// The operation is over.
    Finish(Completion),
    /// The event was not the one the machine was waiting for; nothing changed.
    Rejected,
}

impl Primitive {
    /// Whether the primitive treats every nonzero code as a failure. The
    /// others fail on negative codes only.
    pub open spec fn strict(self) -> bool {
        self == Primitive::EnterAddressScope || self == Primitive::LeaveAddressScope || self
            == Primitive::SetArguments
    }

    /// Whether `code` is a success code of this primitive.
    pub open spec fn accepts(self, code: int) -> bool {
        if self.strict() {
            code == 0
        } else {
            code >= 0
        }
    }

    /// The typed result of a reply to this primitive.
    pub open spec fn check_spec(self, code: i32) -> Result<(), Error> {
        if self.accepts(code as int) {
            Ok(())
        } else {
            Err(Error::Engine { primitive: self, code })
        }
    }

    /// The name of the engine's entry point for this primitive.
    pub open spec fn symbol_spec(self) -> Seq<char> {
        match self {
            Primitive::BeginProcess => "__init_process"@,
            Primitive::EndProcess => "__destroy_process"@,
            Primitive::SetContractAddress => "__init_contract_address"@,
            Primitive::SetSender => "__init_sender"@,
            Primitive::PushArgument => "__init_push_arg"@,
            Primitive::SetArguments => "__init_args"@,
            Primitive::FinalizeArguments => "__init_done"@,
            Primitive::ClearCallState => "__clear"@,
            Primitive::CommitPendingState => "__commit_state"@,
            Primitive::AcquireLock => "__get_mutex"@,
            Primitive::ReleaseLock => "__release_mutex"@,
            Primitive::ReadReturnValue => "__get_return_value"@,
            Primitive::ReadEvent => "__get_event"@,
            Primitive::EnterAddressScope => "__push_contract_state"@,
            Primitive::LeaveAddressScope => "__pop_contract_state"@,
        }
    }

    /// The name of the engine's entry point for this primitive, by which a
    /// failure is reported.
    pub fn symbol(self) -> (name: &'static str)
        ensures
            name@ == self.symbol_spec(),
    {
        match self {
            Primitive::BeginProcess => "__init_process",
            Primitive::EndProcess => "__destroy_process",
            Primitive::SetContractAddress => "__init_contract_address",
            Primitive::SetSender => "__init_sender",
            Primitive::PushArgument => "__init_push_arg",
            Primitive::SetArguments => "__init_args",
            Primitive::FinalizeArguments => "__init_done",
            Primitive::ClearCallState => "__clear",
            Primitive::CommitPendingState => "__commit_state",
            Primitive::AcquireLock => "__get_mutex",
            Primitive::ReleaseLock => "__release_mutex",
            Primitive::ReadReturnValue => "__get_return_value",
            Primitive::ReadEvent => "__get_event",
            Primitive::EnterAddressScope => "__push_contract_state",
            Primitive::LeaveAddressScope => "__pop_contract_state",
        }
    }

    /// Tells whether `code` is a success code of this primitive.
    pub fn succeeded(self, code: i32) -> (ok: bool)
        ensures
            ok == self.accepts(code as int),
    {
        match self {
            Primitive::EnterAddressScope | Primitive::LeaveAddressScope | Primitive::SetArguments => {
                code == 0
            },
            _ => code >= 0,
        }
    }

    /// Turns the engine's reply to this primitive into a typed result: a
    /// failure code becomes an error that carries the primitive and the code.
    pub fn check(self, code: i32) -> (result: Result<(), Error>)
        ensures
            result == self.check_spec(code),
    {
        if self.succeeded(code) {
            Ok(())
        } else {
            Err(Error::Engine { primitive: self, code })
        }
    }
}

/// How often `action` occurs among `actions`.
pub open spec fn occurrences(actions: Seq<Action>, action: Action) -> nat
    decreases actions.len(),
{
    if actions.len() == 0 {
        0
    } else {
        occurrences(actions.drop_last(), action) + if actions.last() == action {
            1nat
        } else {
            0nat
        }
    }
}

/// Counting in a sequence with one action put in front.
pub proof fn lemma_occurrences_after_first(first: Action, rest: Seq<Action>, action: Action)
    ensures
        occurrences(seq![first] + rest, action) == occurrences(rest, action) + if first == action {
            1nat
        } else {
            0nat
        },
    decreases rest.len(),
{
    let whole = seq![first] + rest;
    if rest.len() == 0 {
        assert(whole.drop_last() == Seq::<Action>::empty());
        assert(occurrences(whole.drop_last(), action) == 0);
    } else {
        lemma_occurrences_after_first(first, rest.drop_last(), action);
        assert(whole.drop_last() == seq![first] + rest.drop_last());
        assert(whole.last() == rest.last());
    }
}

} // verus!
