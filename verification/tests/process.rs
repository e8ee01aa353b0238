//! The process handle and the replies of the engine.

use hmemu::{Error, Primitive, ProcessHandle, NO_PROCESS};

#[test]
fn new_handle_is_unbound() {
    let handle = ProcessHandle::new();
    assert_eq!(NO_PROCESS, -1);
    assert_eq!(handle.current(), NO_PROCESS);
    assert!(!handle.is_bound());
    assert_eq!(handle.check_idle(), Ok(()));
}

#[test]
fn begin_binds_the_process() {
    let mut handle = ProcessHandle::new();
    assert_eq!(handle.begin(7), Ok(7));
    assert_eq!(handle.current(), 7);
    assert!(handle.is_bound());
}

#[test]
fn process_zero_is_a_process() {
    let mut handle = ProcessHandle::new();
    assert_eq!(handle.begin(0), Ok(0));
    assert!(handle.is_bound());
    assert_eq!(handle.check_idle(), Err(Error::ProcessExists));
}

#[test]
fn begin_while_bound_fails() {
    let mut handle = ProcessHandle::new();
    handle.begin(3).unwrap();
    assert_eq!(handle.check_idle(), Err(Error::ProcessExists));
    assert_eq!(handle.begin(4), Err(Error::ProcessExists));
    assert_eq!(handle.current(), 3);
}

#[test]
fn failed_begin_binds_nothing() {
    let mut handle = ProcessHandle::new();
    assert_eq!(
        handle.begin(-2),
        Err(Error::Engine { primitive: Primitive::BeginProcess, code: -2 })
    );
    assert_eq!(handle.current(), NO_PROCESS);
}

#[test]
fn end_then_begin_succeeds() {
    let mut handle = ProcessHandle::new();
    handle.begin(1).unwrap();
    assert_eq!(handle.end(0), Ok(()));
    assert_eq!(handle.current(), NO_PROCESS);
    assert_eq!(handle.begin(2), Ok(2));
    assert_eq!(handle.current(), 2);
}

#[test]
fn end_clears_even_when_the_engine_fails() {
    let mut handle = ProcessHandle::new();
    handle.begin(1).unwrap();
    assert_eq!(handle.end(-9), Err(Error::Engine { primitive: Primitive::EndProcess, code: -9 }));
    assert_eq!(handle.current(), NO_PROCESS);
    assert!(!handle.is_bound());
    assert_eq!(handle.begin(5), Ok(5));
}

#[test]
fn long_sequence_of_begin_and_end() {
    let mut handle = ProcessHandle::new();
    for pid in 0..50 {
        assert_eq!(handle.begin(pid), Ok(pid));
        assert_eq!(handle.begin(pid + 100), Err(Error::ProcessExists));
        assert_eq!(handle.current(), pid);
        assert_eq!(handle.end(0), Ok(()));
        assert_eq!(handle.current(), NO_PROCESS);
    }
}

#[test]
fn most_primitives_fail_on_negative_codes_only() {
    for primitive in [
        Primitive::BeginProcess,
        Primitive::EndProcess,
        Primitive::SetContractAddress,
        Primitive::SetSender,
        Primitive::PushArgument,
        Primitive::FinalizeArguments,
        Primitive::ClearCallState,
        Primitive::CommitPendingState,
        Primitive::AcquireLock,
        Primitive::ReleaseLock,
        Primitive::ReadReturnValue,
        Primitive::ReadEvent,
    ] {
        assert_eq!(primitive.check(0), Ok(()));
        assert_eq!(primitive.check(5), Ok(()));
        assert_eq!(primitive.check(i32::MAX), Ok(()));
        assert_eq!(primitive.check(-1), Err(Error::Engine { primitive, code: -1 }));
        assert_eq!(primitive.check(i32::MIN), Err(Error::Engine { primitive, code: i32::MIN }));
        assert!(primitive.succeeded(1));
        assert!(!primitive.succeeded(-1));
    }
}

#[test]
fn scope_primitives_fail_on_every_nonzero_code() {
    for primitive in
        [Primitive::EnterAddressScope, Primitive::LeaveAddressScope, Primitive::SetArguments]
    {
        assert_eq!(primitive.check(0), Ok(()));
        assert_eq!(primitive.check(1), Err(Error::Engine { primitive, code: 1 }));
        assert_eq!(primitive.check(-1), Err(Error::Engine { primitive, code: -1 }));
        assert!(primitive.succeeded(0));
        assert!(!primitive.succeeded(3));
    }
}

#[test]
fn primitives_are_named_after_their_entry_points() {
    assert_eq!(Primitive::BeginProcess.symbol(), "__init_process");
    assert_eq!(Primitive::EndProcess.symbol(), "__destroy_process");
    assert_eq!(Primitive::SetContractAddress.symbol(), "__init_contract_address");
    assert_eq!(Primitive::SetSender.symbol(), "__init_sender");
    assert_eq!(Primitive::PushArgument.symbol(), "__init_push_arg");
    assert_eq!(Primitive::SetArguments.symbol(), "__init_args");
    assert_eq!(Primitive::FinalizeArguments.symbol(), "__init_done");
    assert_eq!(Primitive::ClearCallState.symbol(), "__clear");
    assert_eq!(Primitive::CommitPendingState.symbol(), "__commit_state");
    assert_eq!(Primitive::AcquireLock.symbol(), "__get_mutex");
    assert_eq!(Primitive::ReleaseLock.symbol(), "__release_mutex");
    assert_eq!(Primitive::ReadReturnValue.symbol(), "__get_return_value");
    assert_eq!(Primitive::ReadEvent.symbol(), "__get_event");
    assert_eq!(Primitive::EnterAddressScope.symbol(), "__push_contract_state");
    assert_eq!(Primitive::LeaveAddressScope.symbol(), "__pop_contract_state");
}

#[test]
fn errors_in_words() {
    assert_eq!(Error::ProcessExists.message(), "process already exists");
    assert_eq!(
        Error::Engine { primitive: Primitive::BeginProcess, code: -1 }.message(),
        "__init_process: error(-1)"
    );
    assert_eq!(
        Error::Engine { primitive: Primitive::AcquireLock, code: -20 }.message(),
        "__get_mutex: error(-20)"
    );
    assert_eq!(
        Error::Engine { primitive: Primitive::EnterAddressScope, code: 7 }.message(),
        "__push_contract_state: error(7)"
    );
    assert_eq!(
        Error::Engine { primitive: Primitive::ClearCallState, code: 0 }.message(),
        "__clear: error(0)"
    );
    assert_eq!(
        Error::Engine { primitive: Primitive::CommitPendingState, code: i32::MIN }.message(),
        "__commit_state: error(-2147483648)"
    );
    assert_eq!(
        Error::Engine { primitive: Primitive::ReleaseLock, code: i32::MAX }.message(),
        "__release_mutex: error(2147483647)"
    );
    assert_eq!(
        Error::Engine { primitive: Primitive::EndProcess, code: -1090 }.message(),
        "__destroy_process: error(-1090)"
    );
    assert_eq!(
        Error::NotFound { primitive: Primitive::ReadReturnValue }.message(),
        "__get_return_value: key not found"
    );
    assert_eq!(
        Error::NotFound { primitive: Primitive::ReadEvent }.message(),
        "get_event: event not found"
    );
    assert_eq!(
        Error::Overrun { primitive: Primitive::ReadEvent, code: 129 }.message(),
        "__get_event: buffer overrun(129)"
    );
    assert_eq!(Error::FunctionNotFound.message(), "function not found");
    assert_eq!(Error::SlotsExhausted.message(), "value table is full");
}
