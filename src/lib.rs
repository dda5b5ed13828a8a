//! A supervisor for one long-running child service: crash-loop detection,
//! size-bounded log capture with archive rotation, and the per-tick restart
//! policy that ties them together.
use vstd::prelude::*;

pub mod archive;
pub mod breaker;
pub mod capture;
pub mod command;
pub mod config;
pub mod monitor;
pub mod orchestrator;
pub mod snapshot;
pub mod text;

verus! {

/// A component that can be torn down and brought up again in one step.
pub trait Restart: Sized {
    fn restart(self) -> Self;
}

/// A component that can be shut down for good.
pub trait Kill: Sized {
    fn kill(self);
}

} // verus!
