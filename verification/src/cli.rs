//! The run-time options of the tool.

use vstd::prelude::*;
use crate::path::PathStyle;

verus! {

/// Where log output goes.
#[derive(Debug, Clone, Copy, PartialEq, Eq, Structural)]
pub enum LogTarget {
    /// Standard error.
    Stderr,
    /// The system logger (syslog on Unix, the Event Log on Windows).
    System,
}

/// The process field that rules are matched against.
#[derive(Debug, Clone, Copy, PartialEq, Eq, Structural)]
pub enum MatchTarget {
    /// The process name (on Linux truncated to 15 characters).
    Name,
    /// The full command line.
    Cmdline,
    /// The full executable path.
    Exe,
    /// The file name of the executable path.
    ExeBasename,
}

/// The options of a run.
#[derive(Debug, Clone)]
pub struct Cli {
    /// An alternate configuration file.
    pub config: Option<String>,
    /// Show what would be done without making changes.
    pub noop: bool,
    /// Where log output goes.
    pub log: LogTarget,
    /// The process field that rules are matched against.
    pub match_target: MatchTarget,
    /// Include threads in addition to processes.
    pub threads: bool,
    /// Log successful adjustments as well as errors.
    pub verbose: bool,
    /// The path syntax of the platform, for the file name of an executable.
    pub path_style: PathStyle,
}

} // verus!
