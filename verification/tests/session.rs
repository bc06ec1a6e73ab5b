use domino_recorder::session::{classify_pid_record, stop_step, PidRecord, SessionInfo, StopStep};
use std::path::PathBuf;

#[test]
fn session_info_keeps_its_fields() {
    let info = SessionInfo::new(
        12345,
        PathBuf::from("/tmp/test"),
        "2026-04-15T14:23:00-07:00".to_string(),
    );
    assert_eq!(info.pid, 12345);
    assert_eq!(info.session_dir, PathBuf::from("/tmp/test"));
    assert_eq!(info.started_at, "2026-04-15T14:23:00-07:00");
}

#[test]
fn dead_recorder_makes_pid_file_stale() {
    let info = SessionInfo::new(
        999_999_999,
        PathBuf::from("/tmp/domino-test-stale/fake-session"),
        "2026-04-15T00:00:00Z".to_string(),
    );
    match classify_pid_record(info, false) {
        PidRecord::Stale(i) => assert_eq!(i.pid, 999_999_999),
        PidRecord::Active(_) => panic!("a dead recorder is not an active session"),
    }
}

#[test]
fn live_recorder_is_active() {
    let info = SessionInfo::new(42, PathBuf::from("/tmp/x"), "t".to_string());
    assert!(matches!(classify_pid_record(info, true), PidRecord::Active(i) if i.pid == 42));
}

#[test]
fn stop_waits_then_kills() {
    assert_eq!(stop_step(false, 0), StopStep::Exited);
    assert_eq!(stop_step(false, 9_000_000_000), StopStep::Exited);
    assert_eq!(stop_step(true, 4_999_999_999), StopStep::Wait);
    assert_eq!(stop_step(true, 5_000_000_000), StopStep::Kill);
}
