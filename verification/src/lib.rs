//! Execution-context coordination for an in-process contract emulator.
//!
//! The engine that owns processes, contract state and the execution lock is
//! reached through calls that this crate never makes itself. Every operation
//! is therefore a small state machine: it names the next thing to do as an
//! [`Action`], the driver does it, and hands back what happened as an
//! [`Event`]. What each machine decides is fixed by a `spec` transition
//! function, and the laws of the protocol are proved over those functions.
//!
//! - [`process`]: which process the thread owns.
//! - [`lock`]: running a function under the execution lock.
//! - [`run`]: running one process from beginning to end.
//! - [`call`]: calling a contract inside a process, with commit or discard.
//! - [`registry`] and [`dispatch`]: reaching one contract from another.
//! - [`values`] and [`reader`]: moving byte strings of any length through a
//!   buffer of fixed size.
//! - [`protocol`], [`message`] and [`types`]: the shared vocabulary.

pub mod call;
pub mod dispatch;
pub mod lock;
pub mod message;
pub mod process;
pub mod protocol;
pub mod reader;
pub mod registry;
pub mod run;
pub mod types;
pub mod values;

pub use call::{CallStage, ContractCall};
pub use dispatch::{Dispatch, DispatchStage};
pub use lock::ExecFunction;
pub use process::{ProcessHandle, NO_PROCESS};
pub use protocol::{Action, BodyOutcome, Completion, Error, Event, Primitive};
pub use reader::{ReadStep, ValueReader, BUF_SIZE};
pub use registry::Registry;
pub use run::RunProcess;
pub use types::{Address, Arg, Args, ArgsBuilder, ADDRESS_LEN};
pub use values::ValueTable;
