//! How logging is set up.

use vstd::prelude::*;
use crate::cli::LogTarget;

verus! {

/// The most detailed level of log messages that is kept.
#[derive(Debug, Clone, Copy, PartialEq, Eq, Structural)]
pub enum LogLevel {
    /// Warnings and errors.
    Warn,
    /// Everything up to debug messages.
    Debug,
}

/// How logging is to be set up: where messages go and which are kept.
#[derive(Debug, Clone, Copy, PartialEq, Eq, Structural)]
pub struct LogSetup {
    /// Where log output goes.
    pub target: LogTarget,
    /// The most detailed level kept.
    pub level: LogLevel,
}

/// Decides the logging set-up for a target: verbose runs keep debug
/// messages, other runs warnings and errors. The caller installs the logger.
pub fn init(target: &LogTarget, verbose: bool) -> (setup: LogSetup)
    ensures
        setup.target == *target,
        setup.level == (if verbose {
            LogLevel::Debug
        } else {
            LogLevel::Warn
        }),
{
    let level = if verbose {
        LogLevel::Debug
    } else {
        LogLevel::Warn
    };
    LogSetup { target: *target, level }
}

} // verus!
