//! The ticker's decisions. The ticker is a background loop that forces a
//! frame once per interval; the loop itself, its timed wait and its thread
//! belong to the caller, which asks here what to do next.

use crate::manager::Manager;
use crate::sink::Out;
use vstd::prelude::*;

verus! {

/// How a timed wait on the stop signal ended.
#[derive(Clone, Copy, Debug, PartialEq, Eq, Structural)]
pub enum Wake {
    /// The interval passed and nobody asked the ticker to stop.
    TimedOut,
    /// The ticker was asked to stop.
    Cancelled,
}

/// What the loop does at the start of a cycle.
#[derive(Clone, Copy, Debug, PartialEq, Eq, Structural)]
pub enum Cycle {
    /// Wait on the stop signal for at most this many nanoseconds.
    Wait(u64),
    /// Leave the loop.
    Exit,
}

/// The start of a cycle: with the manager there, wait for its interval;
/// with the manager gone, leave.
pub fn begin<O: Out>(manager: Option<&Manager<O>>) -> (cycle: Cycle)
    ensures
        cycle == match manager {
            Some(m) => Cycle::Wait(m@.interval),
            None => Cycle::Exit,
        },
{
    match manager {
        Some(m) => Cycle::Wait(m.interval()),
        None => Cycle::Exit,
    }
}

/// The end of a cycle's wait at `now`. A wait that timed out forces a draw
/// and the loop goes on; one that was cancelled draws nothing and ends the
/// loop. Says whether the loop goes on.
pub fn end<O: Out>(manager: &mut Manager<O>, woke: Wake, now: u64) -> (go_on: bool)
    requires
        old(manager)@.wf(),
    ensures
        final(manager)@.wf(),
        go_on == (woke is TimedOut),
        match woke {
            Wake::TimedOut => Manager::drew(*old(manager), *final(manager), true, now),
            Wake::Cancelled => *final(manager) == *old(manager),
        },
{
    match woke {
        Wake::TimedOut => {
            manager.draw(true, now);
            true
        },
        Wake::Cancelled => false,
    }
}

} // verus!
