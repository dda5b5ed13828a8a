//! The restart policy applied once per tick of the supervisor's main loop.
use vstd::prelude::*;
use crate::command::InputCommand;
use crate::text::same_text;

verus! {

/// The outcome of the protective reset of application state that a
/// tripped crash-loop breaker calls for.
#[derive(Clone, Copy, Debug, PartialEq, Eq, Structural)]
pub enum Recovery {
    /// The breaker did not trip.
    NotNeeded,
    /// The state was reset; the next restart clears the crash count.
    Succeeded,
    /// The reset failed; the supervisor shuts down.
    Failed,
}

/// One action of a tick, performed in order.
#[derive(Clone, Copy, Debug, PartialEq, Eq, Structural)]
pub enum Step {
    /// Have the log capture drain the child's last stderr output.
    ReportCrash,
    /// Restart the child. With `fresh_log` the log is archived and a new
    /// file opened; without it the new child's output goes on into the
    /// current file. With `reset_count` the crash count is cleared.
    Restart { fresh_log: bool, reset_count: bool },
    /// Print the status snapshot.
    ListServers,
    /// Kill the child, the console reader and the log capture, then end.
    Exit,
    /// Print usage.
    Help,
    /// Warn about an unknown command.
    Invalid,
}

/// The actions of one tick: the pending console command, whether the
/// configured restart time is now, whether the child was seen stopped, and
/// how the breaker's protective reset went.
pub open spec fn tick_steps(
    command: InputCommand,
    scheduled: bool,
    stopped: bool,
    recovery: Recovery,
) -> Seq<Step> {
    let reset_count = recovery == Recovery::Succeeded;
    let command = if recovery == Recovery::Failed { InputCommand::Exit } else { command };
    let report: Seq<Step> = if stopped { seq![Step::ReportCrash] } else { seq![] };
    let restart: Seq<Step> = if stopped {
        seq![Step::Restart { fresh_log: false, reset_count }]
    } else if scheduled {
        seq![Step::Restart { fresh_log: true, reset_count }]
    } else {
        seq![]
    };
    let dispatch: Seq<Step> = match command {
        InputCommand::Restart => seq![Step::Restart { fresh_log: false, reset_count }],
        InputCommand::ListServers => seq![Step::ListServers],
        InputCommand::Exit => seq![Step::Exit],
        InputCommand::Help => seq![Step::Help],
        InputCommand::Invalid => seq![Step::Invalid],
        InputCommand::NoInput => seq![],
    };
    report + restart + dispatch
}

pub fn plan_tick(command: InputCommand, scheduled: bool, stopped: bool, recovery: Recovery) -> (steps: Vec<Step>)
    ensures
        steps@ == tick_steps(command, scheduled, stopped, recovery),
{
    let reset_count = recovery == Recovery::Succeeded;
    let command = if recovery == Recovery::Failed { InputCommand::Exit } else { command };
    let mut steps: Vec<Step> = Vec::new();
    if stopped {
        steps.push(Step::ReportCrash);
        steps.push(Step::Restart { fresh_log: false, reset_count });
    } else if scheduled {
        steps.push(Step::Restart { fresh_log: true, reset_count });
    }
    match command {
        InputCommand::Restart => steps.push(Step::Restart { fresh_log: false, reset_count }),
        InputCommand::ListServers => steps.push(Step::ListServers),
        InputCommand::Exit => steps.push(Step::Exit),
        InputCommand::Help => steps.push(Step::Help),
        InputCommand::Invalid => steps.push(Step::Invalid),
        InputCommand::NoInput => {},
    }
    assert(steps@ =~= tick_steps(command, scheduled, stopped, recovery));
    steps
}

/// Whether the wall clock, read as `HH:MM:SS`, shows the configured
/// restart time.
pub fn is_restart_time(now: &str, restart_time: &str) -> (r: bool)
    ensures
        r == (now@ == restart_time@),
{
    same_text(now, restart_time)
}

} // verus!
