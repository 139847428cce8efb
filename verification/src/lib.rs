//! Rule-driven process priority adjustment: the verified core.
//!
//! The library parses priority rules, decides which adjustments apply to a
//! process and computes the values handed to the operating system. Reading
//! the process table and performing the adjustments is left to the caller.

pub mod actions;
pub mod cli;
pub mod config;
pub mod logging;
pub mod model;
pub mod number;
pub mod path;
pub mod platform;
pub mod text;

use vstd::prelude::*;

verus! {

/// Why a run cannot start.
#[derive(Debug, Clone, Copy, PartialEq, Eq, Structural)]
pub enum RunError {
    /// Threads were asked for on a platform other than Linux.
    ThreadsUnsupported,
    /// Threads were asked for on Linux without root privileges.
    ThreadsNeedPrivilege,
}

impl RunError {
    /// A description of the error.
    pub fn message(&self) -> (text: String)
        ensures
            text@ == match self {
                RunError::ThreadsUnsupported => "--threads is only supported on Linux"@,
                RunError::ThreadsNeedPrivilege =>
                    "--threads requires root privileges on Linux;              run with 'sudo' or set CAP_SYS_PTRACE on this binary"@,
            },
    {
        match self {
            RunError::ThreadsUnsupported => String::from_str("--threads is only supported on Linux"),
            RunError::ThreadsNeedPrivilege => String::from_str(
                "--threads requires root privileges on Linux;              run with 'sudo' or set CAP_SYS_PTRACE on this binary",
            ),
        }
    }
}

/// Checks a request for threads before a run: threads are only read on
/// Linux, and there only with root privileges.
pub fn check_threads(threads: bool, linux: bool, privileged: bool) -> (r: Result<(), RunError>)
    ensures
        r == (if threads && !linux {
            Err(RunError::ThreadsUnsupported)
        } else if threads && !privileged {
            Err(RunError::ThreadsNeedPrivilege)
        } else {
            Ok::<(), RunError>(())
        }),
{
    if threads && !linux {
        Err(RunError::ThreadsUnsupported)
    } else if threads && !privileged {
        Err(RunError::ThreadsNeedPrivilege)
    } else {
        Ok(())
    }
}

} // verus!
