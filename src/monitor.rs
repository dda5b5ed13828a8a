//! The watch kept over the child process by its monitor.
use vstd::prelude::*;

verus! {

/// What the monitor learned in one cycle of its bounded wait.
#[derive(Clone, Copy, Debug, PartialEq, Eq, Structural)]
pub enum MonitorEvent {
    /// A kill was requested during the wait.
    KillRequested,
    /// No kill came, and the child has exited on its own.
    Exited,
    /// No kill came, and the child is still running.
    StillRunning,
    /// No kill came, and the child's status could not be read.
    PollFailed,
}

/// What the monitor does about it.
#[derive(Clone, Copy, Debug, PartialEq, Eq, Structural)]
pub enum MonitorStep {
    /// Force-kill the child, wait for it to exit, and end the monitor.
    KillChild,
    /// Record that the child stopped on its own, and end the monitor.
    MarkStopped,
    /// Wait again.
    KeepWatching,
}

pub open spec fn monitor_response(e: MonitorEvent) -> MonitorStep {
    match e {
        MonitorEvent::KillRequested => MonitorStep::KillChild,
        MonitorEvent::Exited => MonitorStep::MarkStopped,
        _ => MonitorStep::KeepWatching,
    }
}

pub fn monitor_step(e: MonitorEvent) -> (s: MonitorStep)
    ensures
        s == monitor_response(e),
{
    match e {
        MonitorEvent::KillRequested => MonitorStep::KillChild,
        MonitorEvent::Exited => MonitorStep::MarkStopped,
        _ => MonitorStep::KeepWatching,
    }
}

/// Whether the monitor's cycle ends it.
pub fn ends_monitor(s: MonitorStep) -> (r: bool)
    ensures
        r == (s != MonitorStep::KeepWatching),
{
    s != MonitorStep::KeepWatching
}

} // verus!
