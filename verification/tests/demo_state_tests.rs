use rich_rust::demo_state::{DemoState, LogLevel, PipelineStage, ServiceHealth, StageStatus};

#[test]
fn log_ring_buffer_caps() {
    let mut state = DemoState::with_log_capacity(1, 2, 2);
    state.push_log(LogLevel::Info, "one", 0);
    state.push_log(LogLevel::Info, "two", 1);
    state.push_log(LogLevel::Info, "three", 2);
    let logs = state.logs_snapshot();
    assert_eq!(logs.len(), 2);
    assert_eq!(logs[0].message, "two");
    assert_eq!(logs[1].message, "three");
}

#[test]
fn zero_capacity_keeps_one_line() {
    let mut state = DemoState::with_log_capacity(1, 2, 0);
    state.push_log(LogLevel::Warn, "a", 5);
    state.push_log(LogLevel::Error, "b", 6);
    let logs = state.logs_snapshot();
    assert_eq!(logs.len(), 1);
    assert_eq!(logs[0].message, "b");
    assert_eq!(logs[0].t_ms, 6);
    assert_eq!(logs[0].level, LogLevel::Error);
}

#[test]
fn demo_seeded_contents() {
    let state = DemoState::demo_seeded(7, 9, 100);
    assert_eq!(state.run_id, 7);
    assert_eq!(state.seed, 9);
    assert_eq!(state.headline, "Booting Nebula Deploy\u{2026}");
    assert_eq!(state.services.len(), 3);
    assert_eq!(state.services[2].health, ServiceHealth::Failing);
    assert_eq!(state.pipeline[1].status, StageStatus::Running);
    assert_eq!(state.pipeline[1].progress_permille, 420);
    let messages: Vec<String> = state.logs_snapshot().into_iter().map(|l| l.message).collect();
    assert_eq!(
        messages,
        vec![
            "svc api: OK (12ms) v1.2.3",
            "svc worker: WARN (48ms) v1.2.3",
            "svc db: ERR (0ms) v13.4",
            "stage plan -> done",
            "stage deploy -> running eta=12s",
            "stage verify -> pending",
            "stage cleanup -> failed",
            "TRACE: demo log line",
            "DEBUG: demo log line",
            "INFO: demo log line",
            "WARN: demo log line",
            "ERROR: demo log line",
        ]
    );
}

#[test]
fn progress_is_clamped() {
    let mut stage = PipelineStage { name: "x".to_string(), status: StageStatus::Pending, progress_permille: 0, eta_secs: None };
    stage.set_progress(5000);
    assert_eq!(stage.progress_permille, 1000);
    stage.set_progress(250);
    assert_eq!(stage.progress_permille, 250);
}
