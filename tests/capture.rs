use watchdog::capture::{newer_streams, next_step, timestamped, CaptureState, CaptureStep, KillType, LineFate, LogType};

#[test]
fn cap_keeps_first_three_of_five_lines() {
    let mut s = CaptureState::new(100);
    let fates: Vec<LineFate> = (0..5).map(|_| s.on_line(30)).collect();
    assert_eq!(
        fates,
        vec![
            LineFate::Persist,
            LineFate::Persist,
            LineFate::Persist,
            LineFate::WarnLimit,
            LineFate::Discard
        ]
    );
    let persisted: usize = fates.iter().filter(|f| **f == LineFate::Persist).count() * 30;
    assert_eq!(persisted, 90);
    assert!(s.displayed_warning);
}

#[test]
fn line_reaching_cap_exactly_is_dropped() {
    let mut s = CaptureState::new(60);
    assert_eq!(s.on_line(30), LineFate::Persist);
    assert_eq!(s.on_line(30), LineFate::WarnLimit);
    assert_eq!(s.on_line(1), LineFate::Discard);
}

#[test]
fn counter_saturates() {
    let mut s = CaptureState::new(usize::MAX);
    assert_eq!(s.on_line(usize::MAX - 1), LineFate::Persist);
    assert_eq!(s.on_line(10), LineFate::WarnLimit);
    assert_eq!(s.bytes_seen, usize::MAX);
}

#[test]
fn signals_map_to_steps() {
    assert_eq!(next_step(None), CaptureStep::Capture);
    assert_eq!(next_step(Some(KillType::Crash)), CaptureStep::DrainStderr);
    assert_eq!(next_step(Some(KillType::Kill)), CaptureStep::Stop);
}

#[test]
fn timestamped_line() {
    assert_eq!(timestamped("[01/02/24 03:04:05]:", "hello\n"), "[01/02/24 03:04:05]: hello\n");
}

#[test]
fn prefixes() {
    assert_eq!(LogType::Warn.prefix("main"), "[thread:main:WARN]:");
    assert_eq!(LogType::Info.prefix("x"), "[thread:x:INFO]:");
    assert_eq!(LogType::Error.prefix("loggerthread"), "[thread:loggerthread:ERR]:");
}

#[test]
fn handed_over_streams_replace_current_ones() {
    let mut in_use = vec!["old line 1", "old line 2"];
    in_use = newer_streams(in_use, None);
    assert_eq!(in_use, vec!["old line 1", "old line 2"]);
    in_use = newer_streams(in_use, Some(vec!["new line"]));
    assert_eq!(in_use, vec!["new line"]);
    in_use = newer_streams(in_use, None);
    assert_eq!(in_use, vec!["new line"]);
}
