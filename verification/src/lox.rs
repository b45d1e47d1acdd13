//! The interpreter shell's state: whether any diagnostic has been reported
//! in the current run. The shell around it — reading files, prompting,
//! printing reports — is the host program's business, not this core's.

use vstd::prelude::*;

verus! {

/// State of one interpreter run.
pub struct Lox {
    /// Whether a diagnostic has been reported; a run that ends with this
    /// set is a failed run.
    pub had_error: bool,
}

impl Lox {
    /// A fresh run: no diagnostic reported yet.
    pub fn new() -> (l: Lox)
        ensures
            !l.had_error,
    {
        Lox { had_error: false }
    }

    /// Records that a diagnostic has been reported; the flag stays set for
    /// the rest of the run.
    pub fn error(&mut self)
        ensures
            final(self).had_error,
    {
        self.had_error = true;
    }
}

} // verus!
