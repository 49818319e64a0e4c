use okiru::{ActivityLogger, AppInfo};
use okiru::storage::StorageError;

fn snapshot(name: &str, bundle: &str, pid: i32) -> AppInfo {
    AppInfo {
        app_name: name.to_string(),
        window_title: format!("{} - Window", name),
        bundle_id: bundle.to_string(),
        process_id: pid,
    }
}

#[test]
fn end_session_without_open_fails_and_changes_nothing() {
    let mut logger = ActivityLogger::new();
    let r = logger.end_session_at(1_000);
    assert!(matches!(r, Err(StorageError::SessionNotFound)));
    assert_eq!(logger.session_count(), 0);
    assert!(logger.open_session_id().is_none());

    // Also after a session has been opened and closed again.
    let app = snapshot("Editor", "com.example.editor", 7);
    logger.start_session_at(&app, 5_000).unwrap();
    logger.end_session_at(9_000).unwrap();
    let r2 = logger.end_session_at(9_500);
    assert!(matches!(r2, Err(StorageError::SessionNotFound)));
    assert_eq!(logger.session_count(), 1);
    assert!(logger.open_session_id().is_none());
}

#[test]
fn duration_is_elapsed_seconds_rounded_down() {
    let mut logger = ActivityLogger::new();
    let app = snapshot("Editor", "com.example.editor", 7);
    let id = logger.start_session_at(&app, 10_000).unwrap();
    assert_eq!(id, 1);
    logger.end_session_at(13_700).unwrap();
    let s = logger.get_session(0).unwrap();
    assert_eq!(s.start_time_ms, 10_000);
    assert_eq!(s.end_time_ms, Some(13_700));
    assert_eq!(s.duration_seconds, Some(3));
}

#[test]
fn duration_clamps_to_zero_when_clock_moves_backward() {
    // The documented policy for a backward clock jump: duration 0, never
    // negative.
    let mut logger = ActivityLogger::new();
    let app = snapshot("Editor", "com.example.editor", 7);
    logger.start_session_at(&app, 20_000).unwrap();
    logger.end_session_at(15_000).unwrap();
    let s = logger.get_session(0).unwrap();
    assert_eq!(s.end_time_ms, Some(15_000));
    assert_eq!(s.duration_seconds, Some(0));
}

#[test]
fn start_session_cascades_close_of_open_session() {
    let mut logger = ActivityLogger::new();
    let a = snapshot("Editor", "com.example.editor", 7);
    let b = snapshot("Browser", "com.example.browser", 9);
    let id1 = logger.start_session_at(&a, 1_000).unwrap();
    let id2 = logger.start_session_at(&b, 4_200).unwrap();
    assert_eq!((id1, id2), (1, 2));
    assert_eq!(logger.session_count(), 2);
    assert_eq!(logger.open_session_id(), Some(2));

    let first = logger.get_session(0).unwrap();
    assert_eq!(first.bundle_id, "com.example.editor");
    assert_eq!(first.end_time_ms, Some(4_200));
    assert_eq!(first.duration_seconds, Some(3));

    let second = logger.get_session(1).unwrap();
    assert_eq!(second.bundle_id, "com.example.browser");
    assert_eq!(second.start_time_ms, 4_200);
    assert!(second.end_time_ms.is_none());
    assert!(second.duration_seconds.is_none());
}

#[test]
fn session_records_copy_snapshot_fields() {
    let mut logger = ActivityLogger::new();
    let app = snapshot("Terminal", "com.example.terminal", 4242);
    logger.start_session_at(&app, 77_000).unwrap();
    let s = logger.get_session(0).unwrap();
    assert_eq!(s.id, 1);
    assert_eq!(s.application_name, "Terminal");
    assert_eq!(s.window_title, "Terminal - Window");
    assert_eq!(s.bundle_id, "com.example.terminal");
    assert_eq!(s.process_id, 4242);
    assert!(logger.get_session(1).is_none());
}

#[test]
fn wall_clock_sessions_have_nonnegative_whole_second_durations() {
    // Drives the clock-reading path: start and end immediately.
    let mut logger = ActivityLogger::new();
    let app = snapshot("Editor", "com.example.editor", 7);
    let id = logger.start_session(&app).unwrap();
    assert_eq!(id, 1);
    assert_eq!(logger.open_session_id(), Some(1));
    logger.end_session().unwrap();
    assert!(logger.open_session_id().is_none());
    let s = logger.get_session(0).unwrap();
    let d = s.duration_seconds.unwrap();
    assert!(d >= 0);
    assert!(s.end_time_ms.is_some());
}

#[test]
fn storage_error_descriptions_name_the_failure() {
    assert_eq!(
        StorageError::SessionNotFound.describe(),
        "Session not found"
    );
    assert_eq!(
        StorageError::DatabaseError("disk full".to_string()).describe(),
        "Database error: disk full"
    );
}
