//! What to do after a script ran: finish, install the package it missed and
//! run it once more, or fail.
use vstd::prelude::*;

use crate::error::CapsuleError;

verus! {

/// How a script run ended.
pub struct RunResult {
    pub code: i32,
    pub stderr: String,
}

impl RunResult {
    /// The script exited with status 0.
    pub fn success(&self) -> (b: bool)
        ensures
            b == (self.code == 0),
    {
        self.code == 0
    }
}

/// Which run of a script this was.
#[derive(Debug, Clone, Copy, PartialEq, Eq, Structural)]
pub enum RunAttempt {
    First,
    Retry,
}

/// The next step after a run.
#[derive(Debug, PartialEq, Eq)]
pub enum RunDecision {
    /// The script succeeded.
    Finish,
    /// Install `package` (asking first when `needs_consent`), record it in
    /// the lock, and run the script again.
    InstallAndRetry { package: String, needs_consent: bool },
    /// Stop with this error.
    Fail(CapsuleError),
}

} // verus!
