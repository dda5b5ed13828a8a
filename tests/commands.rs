use watchdog::command::{command_of, parse_line, InputCommand};
use watchdog::config::{with_seconds, Config};
use watchdog::monitor::{ends_monitor, monitor_step, MonitorEvent, MonitorStep};
use watchdog::orchestrator::{is_restart_time, plan_tick, Recovery, Step};

#[test]
fn commands_from_lines() {
    assert_eq!(parse_line("restart\n"), InputCommand::Restart);
    assert_eq!(parse_line("  list-servers \r\n"), InputCommand::ListServers);
    assert_eq!(parse_line("exit"), InputCommand::Exit);
    assert_eq!(parse_line("stop\n"), InputCommand::Exit);
    assert_eq!(parse_line("help"), InputCommand::Help);
    assert_eq!(parse_line("reboot"), InputCommand::Invalid);
    assert_eq!(parse_line("   \n"), InputCommand::NoInput);
    assert_eq!(command_of(""), InputCommand::NoInput);
    assert_eq!(command_of(" help"), InputCommand::Invalid);
    assert_eq!(InputCommand::default(), InputCommand::NoInput);
}

#[test]
fn crash_restarts_with_continuity() {
    let steps = plan_tick(InputCommand::NoInput, false, true, Recovery::NotNeeded);
    assert_eq!(
        steps,
        vec![Step::ReportCrash, Step::Restart { fresh_log: false, reset_count: false }]
    );
}

#[test]
fn scheduled_restart_opens_fresh_log() {
    let steps = plan_tick(InputCommand::NoInput, true, false, Recovery::NotNeeded);
    assert_eq!(steps, vec![Step::Restart { fresh_log: true, reset_count: false }]);
}

#[test]
fn crash_wins_over_schedule() {
    let steps = plan_tick(InputCommand::Help, true, true, Recovery::Succeeded);
    assert_eq!(
        steps,
        vec![
            Step::ReportCrash,
            Step::Restart { fresh_log: false, reset_count: true },
            Step::Help
        ]
    );
}

#[test]
fn failed_recovery_exits() {
    let steps = plan_tick(InputCommand::Restart, false, true, Recovery::Failed);
    assert_eq!(
        steps,
        vec![Step::ReportCrash, Step::Restart { fresh_log: false, reset_count: false }, Step::Exit]
    );
}

#[test]
fn commands_dispatch() {
    assert_eq!(
        plan_tick(InputCommand::Restart, false, false, Recovery::NotNeeded),
        vec![Step::Restart { fresh_log: false, reset_count: false }]
    );
    assert_eq!(plan_tick(InputCommand::ListServers, false, false, Recovery::NotNeeded), vec![Step::ListServers]);
    assert_eq!(plan_tick(InputCommand::Exit, false, false, Recovery::NotNeeded), vec![Step::Exit]);
    assert_eq!(plan_tick(InputCommand::Invalid, false, false, Recovery::NotNeeded), vec![Step::Invalid]);
    assert!(plan_tick(InputCommand::NoInput, false, false, Recovery::NotNeeded).is_empty());
}

#[test]
fn restart_time_matches_clock() {
    let t = with_seconds("04:30");
    assert_eq!(t, "04:30:00");
    assert!(is_restart_time("04:30:00", &t));
    assert!(!is_restart_time("04:30:01", &t));
}

#[test]
fn config_normalized() {
    let c = Config {
        restart_time: "23:59".to_string(),
        global_data_file: "g.json".to_string(),
        server_folder: "server".to_string(),
        max_file_size: 100,
        max_crash_count: 3,
        crash_count_timer_len_in_millis: 5000,
    }
    .normalized();
    assert_eq!(c.restart_time, "23:59:00");
    assert_eq!(c.max_file_size, 100);
    assert_eq!(c.server_folder, "server");
}

#[test]
fn monitor_decisions() {
    assert_eq!(monitor_step(MonitorEvent::KillRequested), MonitorStep::KillChild);
    assert_eq!(monitor_step(MonitorEvent::Exited), MonitorStep::MarkStopped);
    assert_eq!(monitor_step(MonitorEvent::StillRunning), MonitorStep::KeepWatching);
    assert_eq!(monitor_step(MonitorEvent::PollFailed), MonitorStep::KeepWatching);
    assert!(ends_monitor(MonitorStep::KillChild));
    assert!(ends_monitor(MonitorStep::MarkStopped));
    assert!(!ends_monitor(MonitorStep::KeepWatching));
}
