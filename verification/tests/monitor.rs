use okiru::{ActivityLogger, AppInfo, MonitorConfig, MonitorError, MonitorState};

fn snapshot(bundle: &str, pid: i32) -> AppInfo {
    AppInfo {
        app_name: format!("app for {}", bundle),
        window_title: format!("window of {}", bundle),
        bundle_id: bundle.to_string(),
        process_id: pid,
    }
}

#[test]
fn three_bundles_make_three_back_to_back_sessions() {
    // Snapshot stream b1, b2, b2, b3, b3, b3: exactly three sessions, each
    // closed before the next opens, end instants never past the next start.
    let mut state = MonitorState::new();
    let mut logger = ActivityLogger::new();
    let polls = [
        ("com.example.one", 1_000),
        ("com.example.two", 2_000),
        ("com.example.two", 3_000),
        ("com.example.three", 4_000),
        ("com.example.three", 5_000),
        ("com.example.three", 6_000),
    ];
    for (bundle, t) in polls {
        state
            .handle_snapshot_at(&mut logger, &snapshot(bundle, 1), t)
            .unwrap();
    }
    assert_eq!(logger.session_count(), 3);

    let s1 = logger.get_session(0).unwrap();
    let s2 = logger.get_session(1).unwrap();
    let s3 = logger.get_session(2).unwrap();
    assert_eq!(s1.bundle_id, "com.example.one");
    assert_eq!(s2.bundle_id, "com.example.two");
    assert_eq!(s3.bundle_id, "com.example.three");
    assert_eq!(s1.end_time_ms, Some(2_000));
    assert_eq!(s2.end_time_ms, Some(4_000));
    assert!(s3.end_time_ms.is_none());
    assert!(s1.end_time_ms.unwrap() <= s2.start_time_ms);
    assert!(s2.end_time_ms.unwrap() <= s3.start_time_ms);
    assert_eq!(logger.open_session_id(), Some(3));
}

#[test]
fn same_bundle_twice_starts_exactly_one_session() {
    let mut state = MonitorState::new();
    let mut logger = ActivityLogger::new();
    let app = snapshot("com.example.editor", 12);

    let first = state.handle_snapshot_at(&mut logger, &app, 1_000).unwrap();
    assert_eq!(first, Some(1));
    let second = state.handle_snapshot_at(&mut logger, &app, 2_000).unwrap();
    assert_eq!(second, None);

    assert_eq!(logger.session_count(), 1);
    assert_eq!(logger.open_session_id(), Some(1));
    let s = logger.get_session(0).unwrap();
    assert_eq!(s.start_time_ms, 1_000);
    assert!(s.end_time_ms.is_none());
}

#[test]
fn other_fields_do_not_trigger_a_new_session() {
    // Only the bundle id decides: a new title or pid alone changes nothing.
    let mut state = MonitorState::new();
    let mut logger = ActivityLogger::new();
    let mut app = snapshot("com.example.editor", 12);
    state.handle_snapshot_at(&mut logger, &app, 1_000).unwrap();
    app.window_title = "another window".to_string();
    app.process_id = 13;
    let r = state.handle_snapshot_at(&mut logger, &app, 2_000).unwrap();
    assert_eq!(r, None);
    assert_eq!(logger.session_count(), 1);
}

#[test]
fn wall_clock_tick_starts_a_session() {
    let mut state = MonitorState::new();
    let mut logger = ActivityLogger::new();
    let r = state
        .handle_snapshot(&mut logger, &snapshot("com.example.editor", 12))
        .unwrap();
    assert_eq!(r, Some(1));
    assert_eq!(logger.session_count(), 1);
}

#[test]
fn default_config_polls_once_a_second() {
    let config = MonitorConfig::default();
    assert_eq!(config.poll_interval_ms, 1_000);
    assert_eq!(config.runloop_timeout_ms, 100);
}

#[test]
fn describe_lists_the_snapshot_fields() {
    let app = AppInfo {
        app_name: "Editor".to_string(),
        window_title: "main.rs".to_string(),
        bundle_id: "com.example.editor".to_string(),
        process_id: 7,
    };
    assert_eq!(
        app.describe(),
        "App: Editor | Window: main.rs | Bundle: com.example.editor | PID: 7"
    );
}

#[test]
fn describe_writes_negative_process_ids_with_a_sign() {
    let app = AppInfo {
        app_name: "X".to_string(),
        window_title: "Y".to_string(),
        bundle_id: "z".to_string(),
        process_id: -120,
    };
    assert_eq!(app.describe(), "App: X | Window: Y | Bundle: z | PID: -120");
}

#[test]
fn monitor_error_descriptions_name_the_failure() {
    assert_eq!(
        MonitorError::NoActiveApp.describe(),
        "No Active Application found"
    );
    assert_eq!(
        MonitorError::ApiError("lookup denied".to_string()).describe(),
        "API error: lookup denied"
    );
}
