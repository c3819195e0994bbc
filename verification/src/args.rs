//! What the command line gives.

use vstd::prelude::*;

verus! {

/// How much is logged.
#[derive(Clone, Copy, Debug, PartialEq, Eq, Hash, Structural)]
pub enum LogLevel {
    Error,
    Warn,
    Info,
    Debug,
}

/// The arguments of the command line.
#[derive(Debug, PartialEq, Eq)]
pub struct CliArguments {
    /// How often the verbosity flag was given.
    pub verbose: u8,
    /// The path that should be checked.
    pub path: String,
}

/// The log level that goes with a verbosity: errors only without the flag,
/// then warnings, then information, and everything from three flags on.
pub open spec fn level_for(verbosity: u8) -> LogLevel {
    if verbosity == 0 {
        LogLevel::Error
    } else if verbosity == 1 {
        LogLevel::Warn
    } else if verbosity == 2 {
        LogLevel::Info
    } else {
        LogLevel::Debug
    }
}

/// The log level that goes with `verbosity`.
pub fn log_level(verbosity: u8) -> (level: LogLevel)
    ensures
        level == level_for(verbosity),
{
    match verbosity {
        0 => LogLevel::Error,
        1 => LogLevel::Warn,
        2 => LogLevel::Info,
        _ => LogLevel::Debug,
    }
}

impl CliArguments {
    /// The log level that the arguments ask for.
    pub fn log_level(&self) -> (level: LogLevel)
        ensures
            level == level_for(self.verbose),
    {
        log_level(self.verbose)
    }
}

} // verus!
