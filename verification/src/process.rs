//! The process handle: which process, if any, the current thread owns.
//!
//! A thread owns at most one process. The handle is checked before the
//! engine is asked for a new process, so that a refused `begin` leaves no
//! process behind on the engine's side, and it is cleared by `end` whatever
//! the engine answered.

use vstd::prelude::*;
use crate::protocol::{Error, Primitive};

verus! {

/// What `current` reports when the thread owns no process.
pub const NO_PROCESS: i32 = -1;

/// The binding of a thread to its process.
pub struct ProcessHandle {
    pid: i32,
}

impl View for ProcessHandle {
    type V = Option<i32>;

    closed spec fn view(&self) -> Option<i32> {
        if self.pid >= 0 {
            Some(self.pid)
        } else {
            None
        }
    }
}

/// The binding after, and the result of, a `begin` to which the engine
/// answered `reply`, on a thread bound as `bound` says.
pub open spec fn begin_spec(bound: Option<i32>, reply: i32) -> (Option<i32>, Result<i32, Error>) {
    if bound is Some {
        (bound, Err(Error::ProcessExists))
    } else if reply < 0 {
        (bound, Err(Error::Engine { primitive: Primitive::BeginProcess, code: reply }))
    } else {
        (Some(reply), Ok(reply))
    }
}

/// The binding after, and the result of, an `end` to which the engine
/// answered `reply`.
pub open spec fn end_spec(bound: Option<i32>, reply: i32) -> (Option<i32>, Result<(), Error>) {
    (None, Primitive::EndProcess.check_spec(reply))
}

impl ProcessHandle {
    #[verifier::type_invariant]
    spec fn well_formed(self) -> bool {
        self.pid >= NO_PROCESS
    }

    /// The handle of a thread that owns no process.
    pub fn new() -> (handle: ProcessHandle)
        ensures
            handle@ is None,
    {
        ProcessHandle { pid: NO_PROCESS }
    }

    /// The id of the process that the thread owns, or `NO_PROCESS`.
    pub fn current(&self) -> (pid: i32)
        ensures
            pid == match self@ {
                Some(bound) => bound,
                None => NO_PROCESS,
            },
            self@ is Some <==> pid >= 0,
    {
        proof {
            use_type_invariant(self);
        }
        self.pid
    }

    /// Tells whether the thread owns a process.
    pub fn is_bound(&self) -> (bound: bool)
        ensures
            bound == (self@ is Some),
    {
        self.pid >= 0
    }

    /// The check that comes before the engine is asked for a process: it
    /// fails exactly when the thread already owns one.
    pub fn check_idle(&self) -> (result: Result<(), Error>)
        ensures
            result == (if self@ is Some {
                Err::<(), Error>(Error::ProcessExists)
            } else {
                Ok::<(), Error>(())
            }),
    {
        if self.pid >= 0 {
            Err(Error::ProcessExists)
        } else {
            Ok(())
        }
    }

    /// Binds the thread to the process that the engine created: `reply` is
    /// what the engine answered to `BeginProcess`. A bound thread is refused
    /// and stays bound as it was; a failure code is passed on and binds
    /// nothing.
    pub fn begin(&mut self, reply: i32) -> (result: Result<i32, Error>)
        ensures
            (final(self)@, result) == begin_spec(old(self)@, reply),
    {
        if self.pid >= 0 {
            Err(Error::ProcessExists)
        } else if reply < 0 {
            Err(Error::Engine { primitive: Primitive::BeginProcess, code: reply })
        } else {
            self.pid = reply;
            Ok(reply)
        }
    }

    /// Clears the binding: `reply` is what the engine answered to
    /// `EndProcess`. The binding is cleared whatever the engine answered,
    /// and a failure code is passed on.
    pub fn end(&mut self, reply: i32) -> (result: Result<(), Error>)
        ensures
            (final(self)@, result) == end_spec(old(self)@, reply),
    {
        self.pid = NO_PROCESS;
        Primitive::EndProcess.check(reply)
    }
}

/// A `begin` on a bound thread fails and changes nothing.
pub proof fn lemma_begin_while_bound_fails(bound: Option<i32>, reply: i32)
    requires
        bound is Some,
    ensures
        begin_spec(bound, reply) == (bound, Err::<i32, Error>(Error::ProcessExists)),
{
}

/// After an `end` the thread is unbound, whatever the engine answered and
/// however the thread was bound before.
pub proof fn lemma_end_unbinds(bound: Option<i32>, reply: i32)
    ensures
        end_spec(bound, reply).0 is None,
{
}

/// A `begin` that follows an `end` succeeds with the process that the engine
/// hands out, and binds the thread to it.
pub proof fn lemma_end_then_begin_succeeds(bound: Option<i32>, end_reply: i32, begin_reply: i32)
    requires
        begin_reply >= 0,
    ensures
        begin_spec(end_spec(bound, end_reply).0, begin_reply) == (
            Some(begin_reply),
            Ok::<i32, Error>(begin_reply),
        ),
{
}

/// The operations on a handle.
pub enum HandleOp {
    /// A `begin` to which the engine answers with this code.
    Begin(i32),
    /// An `end` to which the engine answers with this code.
    End(i32),
}

/// The binding after the operations `ops`, applied in order to a thread
/// bound as `bound` says.
pub open spec fn apply_ops(bound: Option<i32>, ops: Seq<HandleOp>) -> Option<i32>
    decreases ops.len(),
{
    if ops.len() == 0 {
        bound
    } else {
        let before = apply_ops(bound, ops.drop_last());
        match ops.last() {
            HandleOp::Begin(reply) => begin_spec(before, reply).0,
            HandleOp::End(reply) => end_spec(before, reply).0,
        }
    }
}

/// After any sequence of operations the thread is bound exactly to the
/// process of the last `begin` that succeeded, if no `end` came after it:
/// unbound after an `end`, and unchanged by a `begin` that was refused.
pub proof fn lemma_sequences_keep_one_process(bound: Option<i32>, ops: Seq<HandleOp>)
    requires
        ops.len() > 0,
    ensures
        ops.last() is End ==> apply_ops(bound, ops) is None,
        ops.last() matches HandleOp::Begin(reply) ==> {
            let before = apply_ops(bound, ops.drop_last());
            &&& before is Some ==> apply_ops(bound, ops) == before
            &&& before is None && reply >= 0 ==> apply_ops(bound, ops) == Some(reply)
            &&& before is None && reply < 0 ==> apply_ops(bound, ops) is None
        },
{
}

} // verus!
