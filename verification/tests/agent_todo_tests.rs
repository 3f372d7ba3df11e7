use petool_core::agent::{
    scheduler_job_id_argument, scheduler_runs_limit, validate_scheduler_job_create, validate_scheduler_job_patch,
    bool_to_i64, is_probably_binary, should_stop_for_repeats, trim_process_output,
    update_repeated_signature_rounds, validate_scheduler_session_target,
};
use petool_core::scheduler::models::{
    SchedulerJobCreateInput, SchedulerJobPatchInput, SchedulerScheduleKind, SchedulerSessionTarget,
};
use petool_core::todo::{
    add_todo, parse_todo_status, read_bool_argument, read_optional_string_argument, read_string_argument,
    read_todos, read_u64_argument, remove_todo, update_todo, TodoItem, TodoStatus,
};

#[test]
fn repeated_rounds_are_counted_and_reset() {
    let mut last: Option<String> = None;
    let mut rounds = 0usize;
    update_repeated_signature_rounds(&mut last, &mut rounds, "a".to_string());
    assert_eq!(rounds, 0);
    update_repeated_signature_rounds(&mut last, &mut rounds, "a".to_string());
    assert_eq!(rounds, 1);
    update_repeated_signature_rounds(&mut last, &mut rounds, "a".to_string());
    assert_eq!(rounds, 2);
    assert!(should_stop_for_repeats(rounds));
    update_repeated_signature_rounds(&mut last, &mut rounds, "b".to_string());
    assert_eq!(rounds, 0);
    assert_eq!(last.as_deref(), Some("b"));
    assert!(!should_stop_for_repeats(1));
}

#[test]
fn zero_byte_in_head_means_binary() {
    assert!(is_probably_binary(&[1, 2, 0, 3]));
    assert!(!is_probably_binary(b"plain text"));
    assert!(!is_probably_binary(&[]));
    let mut late = vec![b'a'; 9000];
    late[8500] = 0;
    assert!(!is_probably_binary(&late));
    late[8191] = 0;
    assert!(is_probably_binary(&late));
}

#[test]
fn heartbeat_session_is_refused_for_scheduler_tools() {
    assert_eq!(
        validate_scheduler_session_target(SchedulerSessionTarget::Heartbeat).unwrap_err(),
        "scheduler jobs cannot use session_target=heartbeat"
    );
    assert!(validate_scheduler_session_target(SchedulerSessionTarget::Main).is_ok());
}

#[test]
fn process_output_keeps_the_tail() {
    let mut buf = "abcdef".to_string();
    trim_process_output(&mut buf, 3);
    assert_eq!(buf, "def");
    let mut short = "ab".to_string();
    trim_process_output(&mut short, 3);
    assert_eq!(short, "ab");
    assert_eq!(bool_to_i64(true), 1);
    assert_eq!(bool_to_i64(false), 0);
}

#[test]
fn arguments_are_read_trimmed() {
    assert_eq!(read_string_argument(Some("  x "), "id"), Ok("x".to_string()));
    assert_eq!(read_string_argument(Some("  "), "id"), Err("'id' is required and cannot be empty".to_string()));
    assert_eq!(read_string_argument(None, "path").unwrap_err(), "'path' is required and cannot be empty");
    assert_eq!(read_optional_string_argument(Some(" y ")), Some("y".to_string()));
    assert_eq!(read_optional_string_argument(Some("")), None);
    assert!(read_bool_argument(None, true));
    assert!(!read_bool_argument(Some(false), true));
    assert_eq!(read_u64_argument(Some(7), 3), 7);
    assert_eq!(read_u64_argument(None, 3), 3);
}

#[test]
fn todo_statuses_parse_in_any_case() {
    assert_eq!(parse_todo_status(None), Ok(TodoStatus::Pending));
    assert_eq!(parse_todo_status(Some(" In-Progress ")), Ok(TodoStatus::InProgress));
    assert_eq!(parse_todo_status(Some("DONE")), Ok(TodoStatus::Completed));
    assert_eq!(parse_todo_status(Some("inprogress")), Ok(TodoStatus::InProgress));
    assert_eq!(parse_todo_status(Some("later")).unwrap_err(), "Invalid TODO status: later");
}

#[test]
fn todo_list_add_update_remove() {
    let mut items: Vec<TodoItem> = Vec::new();
    add_todo(&mut items, "1".to_string(), "write".to_string(), TodoStatus::Pending, "t0");
    add_todo(&mut items, "2".to_string(), "test".to_string(), TodoStatus::Pending, "t0");
    assert_eq!(items.len(), 2);
    update_todo(&mut items, "2", None, Some(TodoStatus::Completed), "t1").unwrap();
    assert_eq!(items[1].status, TodoStatus::Completed);
    assert_eq!(items[1].text, "test");
    assert_eq!(items[1].updated_at, "t1");
    assert_eq!(items[1].created_at, "t0");
    assert_eq!(update_todo(&mut items, "9", None, None, "t2").unwrap_err(), "TODO item not found: 9");
    assert_eq!(read_todos(&items, false).len(), 1);
    assert_eq!(read_todos(&items, true).len(), 2);
    remove_todo(&mut items, "1").unwrap();
    assert_eq!(items.len(), 1);
    assert_eq!(items[0].id, "2");
    assert_eq!(remove_todo(&mut items, "1").unwrap_err(), "TODO item not found: 1");
    assert_eq!(items.len(), 1);
}

fn create_input(kind: SchedulerScheduleKind, target: SchedulerSessionTarget) -> SchedulerJobCreateInput {
    SchedulerJobCreateInput {
        name: "job".to_string(),
        description: None,
        enabled: None,
        schedule_kind: kind,
        schedule_at: None,
        every_ms: None,
        cron_expr: None,
        timezone: None,
        session_target: target,
        target_conversation_id: "c".to_string(),
        message: "m".to_string(),
        model_override: None,
        workspace_directory: None,
        tool_whitelist: None,
        run_timeout_seconds: None,
        delete_after_run: None,
    }
}

#[test]
fn scheduler_tool_arguments_are_checked() {
    let mut input = create_input(SchedulerScheduleKind::Every, SchedulerSessionTarget::Main);
    assert_eq!(validate_scheduler_job_create(&input).unwrap_err(), "'every_ms' is required for schedule_kind=every");
    input.every_ms = Some(1000);
    assert!(validate_scheduler_job_create(&input).is_ok());
    let input = create_input(SchedulerScheduleKind::At, SchedulerSessionTarget::Heartbeat);
    assert_eq!(validate_scheduler_job_create(&input).unwrap_err(), "scheduler jobs cannot use session_target=heartbeat");
    let input = create_input(SchedulerScheduleKind::Cron, SchedulerSessionTarget::Isolated);
    assert_eq!(validate_scheduler_job_create(&input).unwrap_err(), "'cron_expr' is required for schedule_kind=cron");
    let input = create_input(SchedulerScheduleKind::At, SchedulerSessionTarget::Isolated);
    assert_eq!(validate_scheduler_job_create(&input).unwrap_err(), "'schedule_at' is required for schedule_kind=at");
    let mut patch = SchedulerJobPatchInput::empty();
    assert!(validate_scheduler_job_patch(&patch).is_ok());
    patch.session_target = Some(SchedulerSessionTarget::Heartbeat);
    assert!(validate_scheduler_job_patch(&patch).is_err());
    assert_eq!(scheduler_job_id_argument(Some("  "), Some(" j2 ")).unwrap(), "j2");
    assert_eq!(scheduler_job_id_argument(Some("j1"), Some("j2")).unwrap(), "j1");
    assert_eq!(scheduler_job_id_argument(None, None).unwrap_err(), "'job_id' is required");
    assert_eq!(scheduler_runs_limit(None), 50);
    assert_eq!(scheduler_runs_limit(Some(0)), 1);
    assert_eq!(scheduler_runs_limit(Some(5000)), 1000);
    assert_eq!(scheduler_runs_limit(Some(7)), 7);
}
