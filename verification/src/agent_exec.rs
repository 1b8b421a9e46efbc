//! The outcome of a shell command, as the logic reads it.
use vstd::prelude::*;

verus! {

#[derive(Debug, Clone)]
pub struct CommandResult {
    pub status_code: i32,
    pub stdout: String,
    pub stderr: String,
}

impl CommandResult {
    pub fn success(&self) -> (r: bool)
        ensures
            r == (self.status_code == 0),
    {
        self.status_code == 0
    }
}

} // verus!
