//! Events that parts of the application announce to each other.
use vstd::prelude::*;

verus! {

/// Something that happened to a process or to the interface.
#[derive(Debug, Clone, Copy, PartialEq, Eq, Structural)]
pub enum AppEvent {
    ProcessStarted(u32),
    ProcessStopped(u32),
    ProcessKilled(u32),
    Tick,
    Quit,
}

} // verus!
