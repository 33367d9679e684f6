//! The command line: what can be asked for, and how much is logged.

use crate::command::lsp::Lsp;
use crate::command::once::Once;
use vstd::prelude::*;

verus! {

/// What to do.
#[derive(Debug, PartialEq, Eq)]
pub enum Command {
    /// Serve an editor over the language server protocol.
    Lsp(Lsp),
    /// Scan the dependencies of a project once.
    Once(Once),
}

/// How much is logged.
#[derive(Copy, Clone, Debug, PartialEq, Eq, Structural)]
pub enum LevelFilter {
    Off,
    Warn,
    Info,
    Debug,
    Trace,
}

/// The arguments of the program.
#[derive(Debug, PartialEq, Eq)]
pub struct Cli {
    pub command: Command,
    /// Be quiet. Goes before `verbose`.
    pub quiet: bool,
    /// Be more verbose; counts how often it was asked for.
    pub verbose: u8,
}

/// How much is logged for the given flags: nothing when quiet, and else warnings, with one
/// level more for each request to be verbose, up to everything.
pub open spec fn level_for(quiet: bool, verbose: u8) -> LevelFilter {
    if quiet {
        LevelFilter::Off
    } else if verbose == 0 {
        LevelFilter::Warn
    } else if verbose == 1 {
        LevelFilter::Info
    } else if verbose == 2 {
        LevelFilter::Debug
    } else {
        LevelFilter::Trace
    }
}

impl Cli {
    /// How much is logged.
    pub fn level(&self) -> (level: LevelFilter)
        ensures
            level == level_for(self.quiet, self.verbose),
    {
        if self.quiet {
            LevelFilter::Off
        } else if self.verbose == 0 {
            LevelFilter::Warn
        } else if self.verbose == 1 {
            LevelFilter::Info
        } else if self.verbose == 2 {
            LevelFilter::Debug
        } else {
            LevelFilter::Trace
        }
    }
}

} // verus!
