//! The life of the daemon process: what its PID file says.

use vstd::prelude::*;
use crate::numeral::{parse_u32, u32_text};

verus! {

/// What a PID file says about the daemon.
#[derive(Debug, Clone, Copy, PartialEq, Eq, Structural)]
pub enum PidFileState {
    /// There is no PID file.
    Absent,
    /// The file does not hold a process number.
    Invalid,
    /// The file names a process that is gone.
    Stale(u32),
    /// The file names a process that is alive.
    Live(u32),
}

/// The state of a PID file with the given content, where `alive` says
/// whether the process that it names exists.
pub open spec fn pid_file_state_of(content: Option<&str>, alive: bool) -> PidFileState {
    match content {
        None => PidFileState::Absent,
        Some(c) => match u32_text(c@) {
            None => PidFileState::Invalid,
            Some(pid) => if alive {
                PidFileState::Live(pid as u32)
            } else {
                PidFileState::Stale(pid as u32)
            },
        },
    }
}

/// The process number that a PID file holds, white space around it ignored.
pub fn parse_pid(content: &str) -> (r: Option<u32>)
    ensures
        match r {
            Some(pid) => u32_text(content@) == Some(pid as nat),
            None => u32_text(content@).is_none(),
        },
{
    parse_u32(content)
}

/// Judges a PID file.
pub fn pid_file_state(content: Option<&str>, alive: bool) -> (r: PidFileState)
    ensures
        r == pid_file_state_of(content, alive),
{
    match content {
        None => PidFileState::Absent,
        Some(c) => match parse_pid(c) {
            None => PidFileState::Invalid,
            Some(pid) => if alive {
                PidFileState::Live(pid)
            } else {
                PidFileState::Stale(pid)
            },
        },
    }
}

impl PidFileState {
    /// The daemon runs exactly when the file names a live process.
    pub fn is_running(&self) -> (r: bool)
        ensures
            r == (*self is Live),
    {
        match self {
            PidFileState::Live(_) => true,
            _ => false,
        }
    }

    /// A file that names no live process is deleted at the next check.
    pub fn must_remove(&self) -> (r: bool)
        ensures
            r == (*self is Invalid || *self is Stale),
    {
        match self {
            PidFileState::Invalid | PidFileState::Stale(_) => true,
            _ => false,
        }
    }
}

/// After a check, a PID file that is kept names a live process.
pub proof fn lemma_kept_pid_file_is_live(content: Option<&str>, alive: bool)
    ensures
        ({
            let state = pid_file_state_of(content, alive);
            !(state is Invalid || state is Stale) ==> state is Absent || (state is Live && alive)
        }),
{
}

} // verus!
