use ydl_gui::tool_tasks::{cancel_state_then_kill, make_run_id, ToolTaskStore};

const NOW: i64 = 1_700_000_000_000;

#[test]
fn test_tool_task_state_and_latest_result_are_separate() {
    let mut state = ToolTaskStore::new();
    let running = state
        .start_state("chapters", "chapters_run_1", "https://example.com/video", NOW)
        .unwrap();
    assert_eq!(running.status, "running");
    assert!(state.get_result("chapters").is_none());

    state.save_json_result("chapters", "chapters_run_1", r#"{"chapters":[]}"#, 0, NOW + 1);
    let completed = state
        .finish_state("chapters", "chapters_run_1", "completed", None, NOW + 2)
        .unwrap();
    assert_eq!(completed.status, "completed");
    assert_eq!(state.get_result("chapters").unwrap().0.run_id, "chapters_run_1");
}

#[test]
fn test_cancelled_state_is_not_overwritten_by_late_finish() {
    let mut state = ToolTaskStore::new();
    state
        .start_state("livechat", "livechat_run_1", "https://example.com/live", NOW)
        .unwrap();

    let cancelled = state
        .finish_state("livechat", "livechat_run_1", "cancelled", None, NOW + 1)
        .unwrap();
    assert_eq!(cancelled.status, "cancelled");

    assert!(state
        .finish_state("livechat", "livechat_run_1", "failed", Some("err_exit_code:1"), NOW + 2)
        .is_none());
    let current = state.get_state("livechat").unwrap();
    assert_eq!(current.status, "cancelled");
    assert!(current.error.is_none());
}

#[test]
fn test_late_finish_of_previous_run_does_not_touch_new_run() {
    let mut state = ToolTaskStore::new();
    state.start_state("chapters", "chapters_run_1", "https://example.com/a", NOW).unwrap();
    assert!(state
        .finish_state("chapters", "chapters_run_1", "cancelled", None, NOW + 1)
        .is_some());

    let next = state
        .start_state("chapters", "chapters_run_2", "https://example.com/b", NOW + 2)
        .unwrap();
    assert_eq!(next.run_id, "chapters_run_2");

    assert!(state
        .finish_state("chapters", "chapters_run_1", "failed", Some("err_run_ytdlp"), NOW + 3)
        .is_none());
    let current = state.get_state("chapters").unwrap();
    assert_eq!(current.run_id, "chapters_run_2");
    assert_eq!(current.status, "running");
}

#[test]
fn test_start_state_rejects_second_run_while_running() {
    let mut state = ToolTaskStore::new();
    state.start_state("comments", "comments_run_1", "https://example.com/a", NOW).unwrap();
    let err = state
        .start_state("comments", "comments_run_2", "https://example.com/b", NOW + 1)
        .unwrap_err();
    assert_eq!(err, "err_tool_already_running");

    state.start_state("chapters", "chapters_run_1", "https://example.com/c", NOW + 2).unwrap();
}

#[test]
fn test_update_running_stage_is_noop_after_cancel() {
    let mut state = ToolTaskStore::new();
    state.start_state("chapters", "chapters_run_1", "https://example.com/a", NOW).unwrap();
    assert!(state
        .update_running_stage("chapters", "chapters_run_1", "fetching", NOW + 1)
        .is_some());

    state.finish_state("chapters", "chapters_run_1", "cancelled", None, NOW + 2);

    assert!(state
        .update_running_stage("chapters", "chapters_run_1", "fetching", NOW + 3)
        .is_none());
}

#[test]
fn test_running_tool_ids_only_lists_running() {
    let mut state = ToolTaskStore::new();
    assert!(state.get_running_tool_ids().is_empty());

    state.start_state("chapters", "chapters_run_1", "https://example.com/a", NOW).unwrap();
    state.start_state("livechat", "livechat_run_1", "https://example.com/b", NOW).unwrap();
    assert_eq!(state.get_running_tool_ids(), vec!["chapters", "livechat"]);

    state.finish_state("chapters", "chapters_run_1", "completed", None, NOW + 1);
    assert_eq!(state.get_running_tool_ids(), vec!["livechat"]);
    state.finish_state("livechat", "livechat_run_1", "cancelled", None, NOW + 2);
    assert!(state.get_running_tool_ids().is_empty());
}

#[test]
fn test_cancel_writes_state_before_killing() {
    let mut db = ToolTaskStore::new();
    db.start_state("chapters", "chapters_run_1", "https://example.com/a", NOW).unwrap();

    let mut killed = false;
    let updated = cancel_state_then_kill(&mut db, "chapters", "chapters_run_1", NOW + 1);
    if updated.is_some() {
        killed = true;
        let current = db.get_state("chapters").unwrap();
        assert_eq!(current.status, "cancelled");
    }

    assert!(killed);
    assert_eq!(updated.unwrap().status, "cancelled");
}

#[test]
fn test_cancel_does_not_kill_task_that_already_finished() {
    let mut db = ToolTaskStore::new();
    db.start_state("chapters", "chapters_run_1", "https://example.com/a", NOW).unwrap();
    db.finish_state("chapters", "chapters_run_1", "completed", None, NOW + 1);

    let mut killed = false;
    let updated = cancel_state_then_kill(&mut db, "chapters", "chapters_run_1", NOW + 2);
    if updated.is_some() {
        killed = true;
    }

    assert!(!killed);
    assert!(updated.is_none());
}

#[test]
fn finished_run_records_error_and_full_progress() {
    let mut db = ToolTaskStore::new();
    db.start_state("comments", "comments_run_1", "https://example.com/a", NOW).unwrap();
    let failed = db
        .finish_state("comments", "comments_run_1", "failed", Some("err_exit_code:2"), NOW + 5)
        .unwrap();
    assert_eq!(failed.status, "failed");
    assert_eq!(failed.error.as_deref(), Some("err_exit_code:2"));
    assert_eq!(failed.updated_at, NOW + 5);
    assert_eq!(failed.started_at, NOW);
}

#[test]
fn interrupted_runs_are_no_longer_running() {
    let mut db = ToolTaskStore::new();
    db.start_state("chapters", "chapters_run_1", "https://example.com/a", NOW).unwrap();
    db.interrupt_running(NOW + 1);
    assert!(db.get_running_tool_ids().is_empty());
    assert_ne!(db.get_state("chapters").unwrap().status, "running");
}

#[test]
fn run_ids_join_tool_time_and_sequence() {
    assert_eq!(make_run_id("chapters", 1700, 3), "chapters_1700_3");
    assert_eq!(make_run_id("livechat", -5, 0), "livechat_-5_0");
}
