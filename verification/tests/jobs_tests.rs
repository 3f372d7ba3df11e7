use petool_core::config::{AutomationConfig, HeartbeatAutomationConfig};
use petool_core::scheduler::jobs::{
    apply_job_patch, default_job_tool_whitelist, due_job_limit, heartbeat_due, heartbeat_job,
    new_job_from_input, reconcile_job_on_startup, record_run_outcome, summarize_text, RunningJobs,
};
use petool_core::scheduler::models::{
    SchedulerJobCreateInput, SchedulerJobPatchInput, SchedulerRunRequest, SchedulerRunStatus, SchedulerScheduleKind,
    SchedulerSessionTarget,
};
use petool_core::scheduler::schedule::parse_rfc3339;

fn input(kind: SchedulerScheduleKind) -> SchedulerJobCreateInput {
    SchedulerJobCreateInput {
        name: "  daily  ".to_string(),
        description: Some("   ".to_string()),
        enabled: None,
        schedule_kind: kind,
        schedule_at: None,
        every_ms: None,
        cron_expr: None,
        timezone: None,
        session_target: SchedulerSessionTarget::Main,
        target_conversation_id: "conv".to_string(),
        message: "check mail".to_string(),
        model_override: None,
        workspace_directory: None,
        tool_whitelist: None,
        run_timeout_seconds: None,
        delete_after_run: None,
    }
}

#[test]
fn jobs_are_created_with_defaults() {
    let now = parse_rfc3339("2026-02-19T10:00:00Z").unwrap();
    let mut every = input(SchedulerScheduleKind::Every);
    every.every_ms = Some(60_000);
    let job = new_job_from_input(every, "id-1".to_string(), now).unwrap();
    assert_eq!(job.name, "daily");
    assert_eq!(job.description, None);
    assert!(job.enabled);
    assert_eq!(job.run_timeout_seconds, 600);
    assert_eq!(job.tool_whitelist, default_job_tool_whitelist());
    assert_eq!(job.next_run_at.as_deref(), Some("2026-02-19T10:01:00+00:00"));
    assert_eq!(job.created_at, "2026-02-19T10:00:00+00:00");

    let mut bad = input(SchedulerScheduleKind::Every);
    bad.name = " ".to_string();
    assert_eq!(new_job_from_input(bad, "id-2".to_string(), now).unwrap_err(), "name is required");

    let mut past = input(SchedulerScheduleKind::At);
    past.schedule_at = Some("2026-02-19T09:00:00Z".to_string());
    let at_job = new_job_from_input(past, "id-3".to_string(), now).unwrap();
    assert!(!at_job.enabled);
    assert!(at_job.delete_after_run);
}

#[test]
fn patches_change_only_given_fields() {
    let now = parse_rfc3339("2026-02-19T10:00:00Z").unwrap();
    let mut every = input(SchedulerScheduleKind::Every);
    every.every_ms = Some(60_000);
    let job = new_job_from_input(every, "id-1".to_string(), now).unwrap();
    let mut patch = SchedulerJobPatchInput::empty();
    patch.message = Some("new message".to_string());
    let later = parse_rfc3339("2026-02-19T10:00:30Z").unwrap();
    let patched = apply_job_patch(job.clone(), patch, later).unwrap();
    assert_eq!(patched.message, "new message");
    assert_eq!(patched.name, "daily");
    let mut breaking = SchedulerJobPatchInput::empty();
    breaking.every_ms = Some(None);
    assert!(apply_job_patch(job, breaking, later).is_err());
}

#[test]
fn startup_disables_missed_one_shot_jobs() {
    let created = parse_rfc3339("2026-02-19T08:00:00Z").unwrap();
    let mut at = input(SchedulerScheduleKind::At);
    at.schedule_at = Some("2026-02-19T09:00:00Z".to_string());
    let job = new_job_from_input(at, "id-4".to_string(), created).unwrap();
    assert!(job.enabled);
    let now = parse_rfc3339("2026-02-19T10:00:00Z").unwrap();
    let (after, changed) = reconcile_job_on_startup(job, now);
    assert!(changed);
    assert!(!after.enabled);
    assert_eq!(after.last_status, Some(SchedulerRunStatus::Skipped));
    assert_eq!(after.last_error.as_deref(), Some("missed_at_on_startup"));
}

#[test]
fn run_outcome_updates_streak_and_next_run() {
    let created = parse_rfc3339("2026-02-19T10:00:00Z").unwrap();
    let mut every = input(SchedulerScheduleKind::Every);
    every.every_ms = Some(5_000);
    let job = new_job_from_input(every, "id-5".to_string(), created).unwrap();
    let started = parse_rfc3339("2026-02-19T10:00:08Z").unwrap();
    let ended = parse_rfc3339("2026-02-19T10:00:10Z").unwrap();
    let (failed, delete) = record_run_outcome(job, SchedulerRunStatus::Error, Some("boom".to_string()), started, ended);
    assert!(!delete);
    assert_eq!(failed.consecutive_errors, 1);
    assert_eq!(failed.last_duration_ms, Some(2_000));
    assert_eq!(failed.next_run_at.as_deref(), Some("2026-02-19T10:00:40+00:00"));
    let (ok, _) = record_run_outcome(failed, SchedulerRunStatus::Success, None, started, ended);
    assert_eq!(ok.consecutive_errors, 0);
    assert_eq!(ok.next_run_at.as_deref(), Some("2026-02-19T10:00:15+00:00"));
}

#[test]
fn concurrency_limit_and_heartbeat_interval() {
    let mut automation = AutomationConfig::default();
    assert_eq!(due_job_limit(&automation, 0), Some(1));
    assert_eq!(due_job_limit(&automation, 1), None);
    automation.max_concurrent_runs = 0;
    assert_eq!(due_job_limit(&automation, 0), Some(1));
    automation.max_concurrent_runs = 4;
    assert_eq!(due_job_limit(&automation, 1), Some(3));

    let heartbeat = HeartbeatAutomationConfig::default();
    let last = parse_rfc3339("2026-02-19T10:00:00Z").unwrap();
    let soon = parse_rfc3339("2026-02-19T10:29:59Z").unwrap();
    let later = parse_rfc3339("2026-02-19T10:30:00Z").unwrap();
    assert!(heartbeat_due(&heartbeat, None, soon));
    assert!(!heartbeat_due(&heartbeat, Some(last), soon));
    assert!(heartbeat_due(&heartbeat, Some(last), later));
}

#[test]
fn heartbeat_job_needs_a_target() {
    let now = parse_rfc3339("2026-02-19T10:00:00Z").unwrap();
    let mut heartbeat = HeartbeatAutomationConfig::default();
    assert_eq!(
        heartbeat_job(&heartbeat, "hb".to_string(), now).unwrap_err(),
        "Heartbeat target conversation is not configured"
    );
    heartbeat.target_conversation_id = Some("conv".to_string());
    let job = heartbeat_job(&heartbeat, "hb".to_string(), now).unwrap();
    assert_eq!(job.every_ms, Some(30 * 60_000));
    assert_eq!(job.session_target, SchedulerSessionTarget::Heartbeat);
    assert_eq!(job.name, "Heartbeat");
    assert_eq!(job.run_timeout_seconds, 600);
}

#[test]
fn running_jobs_refuse_double_start() {
    let mut running = RunningJobs::new();
    assert!(running.try_start("a"));
    assert!(!running.try_start("a"));
    assert!(running.try_start("b"));
    assert_eq!(running.len(), 2);
    running.finish("a");
    assert!(!running.contains("a"));
    assert!(running.contains("b"));
    assert!(running.try_start("a"));
    let refused = SchedulerRunRequest::refused("already_running");
    assert!(!refused.accepted);
    assert_eq!(refused.reason.as_deref(), Some("already_running"));
}

#[test]
fn run_summaries_take_the_first_line() {
    assert_eq!(summarize_text("   "), "(empty)");
    assert_eq!(summarize_text("\n\n  first line \nsecond"), "first line");
    let long = "y".repeat(500);
    assert_eq!(summarize_text(&long).chars().count(), 220);
}
