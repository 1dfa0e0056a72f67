//! Waiting for a stopped server to exit.

use vstd::prelude::*;

verus! {

/// How many times the server process is probed, half a second apart, before
/// it is judged not to have exited.
pub const STOP_POLLS: u32 = 30;

/// What probing the server process found.
#[derive(Copy, Clone, Debug, PartialEq, Eq, Structural)]
pub enum Probe {
    /// The process still runs.
    Alive,
    /// There is no such process any more.
    Gone,
    /// The probe failed for another reason.
    Failed,
}

/// What the stop command does next.
#[derive(Copy, Clone, Debug, PartialEq, Eq, Structural)]
pub enum StopAction {
    /// Wait half a second and probe again.
    Wait,
    /// The server exited: success.
    Exited,
    /// The probe failed: an error.
    UnknownError,
    /// The server did not exit in time and may not be killed: an error.
    NotExited,
    /// The server did not exit in time: kill it.
    ForceKill,
}

/// The stop command's next step after `polls` probes that found the server
/// alive and a probe that found `probe`; `force` allows killing it.
pub fn stop_step(polls: u32, probe: Probe, force: bool) -> (r: StopAction)
    ensures
        r == match probe {
            Probe::Gone => StopAction::Exited,
            Probe::Failed => StopAction::UnknownError,
            Probe::Alive => if polls < STOP_POLLS {
                StopAction::Wait
            } else if force {
                StopAction::ForceKill
            } else {
                StopAction::NotExited
            },
        },
{
    match probe {
        Probe::Gone => StopAction::Exited,
        Probe::Failed => StopAction::UnknownError,
        Probe::Alive => {
            if polls < STOP_POLLS {
                StopAction::Wait
            } else if force {
                StopAction::ForceKill
            } else {
                StopAction::NotExited
            }
        },
    }
}

} // verus!
