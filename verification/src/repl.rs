//! The REPL's exit status.

use vstd::prelude::*;

verus! {

/// Exit status from the REPL.
#[derive(Debug, Clone, Copy, PartialEq, Eq, Structural)]
pub enum ReplExitStatus {
    /// The REPL exited with `:quit`. The program should exit.
    QuitAll,
    /// The REPL exited with `:continue`. The program should continue running.
    Continue,
}

impl ReplExitStatus {
    /// The status for the C API's exit code `raw`, where `quit_all` is the
    /// code of `:quit`; every other code means `:continue`.
    pub fn from_raw(raw: u32, quit_all: u32) -> (s: Self)
        ensures
            raw == quit_all ==> s == ReplExitStatus::QuitAll,
            raw != quit_all ==> s == ReplExitStatus::Continue,
    {
        if raw == quit_all {
            ReplExitStatus::QuitAll
        } else {
            ReplExitStatus::Continue
        }
    }
}

} // verus!
