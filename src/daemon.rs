//! Outcome of detaching the runner from its terminal.

use vstd::prelude::*;

verus! {

/// Which process goes on after detaching.
#[allow(non_camel_case_types)]
#[derive(Copy, Clone, Debug, PartialEq, Eq, Structural)]
pub enum Status {
    /// This is the detached process: go on running the server.
    CONTINUE,
    /// This is the parent process, which leaves; the detached one has this pid.
    QUIT(i32),
}

} // verus!
