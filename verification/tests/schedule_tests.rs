use petool_core::scheduler::models::{
    SchedulerJob, SchedulerRunSource, SchedulerRunStatus, SchedulerScheduleKind, SchedulerSessionTarget,
};
use petool_core::scheduler::schedule::{
    clamp_timeout_seconds, compute_next_after_result, compute_next_run_at, error_backoff_duration,
    parse_rfc3339, to_rfc3339, validate_schedule_fields, Timestamp,
};

fn build_job(kind: SchedulerScheduleKind) -> SchedulerJob {
    SchedulerJob {
        id: "job-1".to_string(),
        name: "test".to_string(),
        description: None,
        enabled: true,
        schedule_kind: kind,
        schedule_at: None,
        every_ms: None,
        cron_expr: None,
        timezone: None,
        session_target: SchedulerSessionTarget::Main,
        target_conversation_id: "conversation-1".to_string(),
        message: "run".to_string(),
        model_override: None,
        workspace_directory: None,
        tool_whitelist: vec![],
        run_timeout_seconds: 600,
        delete_after_run: false,
        next_run_at: None,
        running_at: None,
        last_run_at: None,
        last_status: None,
        last_error: None,
        last_duration_ms: None,
        consecutive_errors: 0,
        created_at: "2026-02-19T00:00:00Z".to_string(),
        updated_at: "2026-02-19T00:00:00Z".to_string(),
    }
}

fn text_of(t: Timestamp) -> String {
    to_rfc3339(Some(t)).expect("representable")
}

#[test]
fn at_schedule_past_and_future() {
    let now = parse_rfc3339("2026-02-19T10:00:00Z").expect("valid now");

    let mut future_job = build_job(SchedulerScheduleKind::At);
    future_job.schedule_at = Some("2026-02-19T10:05:00Z".to_string());
    assert_eq!(
        text_of(compute_next_run_at(&future_job, now).expect("future next")),
        "2026-02-19T10:05:00+00:00"
    );

    let mut past_job = build_job(SchedulerScheduleKind::At);
    past_job.schedule_at = Some("2026-02-19T09:59:00Z".to_string());
    assert!(compute_next_run_at(&past_job, now).is_none());
}

#[test]
fn every_schedule_advances_without_backfill() {
    let now = parse_rfc3339("2026-02-19T10:00:10Z").expect("valid now");
    let mut job = build_job(SchedulerScheduleKind::Every);
    job.created_at = "2026-02-19T10:00:00Z".to_string();
    job.every_ms = Some(5_000);

    let next = compute_next_run_at(&job, now).expect("next run");
    assert_eq!(text_of(next), "2026-02-19T10:00:15+00:00");
}

#[test]
fn cron_schedule_with_timezone_returns_future() {
    let now = parse_rfc3339("2026-02-19T10:00:00Z").expect("valid now");
    let mut job = build_job(SchedulerScheduleKind::Cron);
    job.cron_expr = Some("0 * * * * * *".to_string());
    job.timezone = Some("UTC".to_string());
    let next = compute_next_run_at(&job, now).expect("next run");
    assert!(next.nanos > now.nanos);
}

#[test]
fn backoff_curve_matches_expected_steps() {
    assert_eq!(error_backoff_duration(1), 30 * 1_000);
    assert_eq!(error_backoff_duration(2), 60 * 1_000);
    assert_eq!(error_backoff_duration(3), 5 * 60 * 1_000);
    assert_eq!(error_backoff_duration(4), 15 * 60 * 1_000);
    assert_eq!(error_backoff_duration(5), 60 * 60 * 1_000);
}

#[test]
fn backoff_is_capped_and_starts_at_thirty_seconds() {
    assert_eq!(error_backoff_duration(0), 30_000);
    assert_eq!(error_backoff_duration(-3), 30_000);
    assert_eq!(error_backoff_duration(40), 3_600_000);
}

#[test]
fn rfc3339_round_trip_and_offsets() {
    let t = parse_rfc3339("2026-02-19T12:00:00+02:00").expect("valid");
    assert_eq!(text_of(t), "2026-02-19T10:00:00+00:00");
    assert!(parse_rfc3339("not a time").is_none());
    let epoch = parse_rfc3339("1970-01-01T00:00:01Z").expect("valid");
    assert_eq!(epoch.nanos, 1_000_000_000);
    assert_eq!(to_rfc3339(None), None);
}

#[test]
fn timeout_is_clamped_to_allowed_range() {
    assert_eq!(clamp_timeout_seconds(None), 600);
    assert_eq!(clamp_timeout_seconds(Some(5)), 30);
    assert_eq!(clamp_timeout_seconds(Some(120)), 120);
    assert_eq!(clamp_timeout_seconds(Some(100_000)), 86_400);
}

#[test]
fn every_schedule_first_run_and_exact_boundary() {
    let mut job = build_job(SchedulerScheduleKind::Every);
    job.created_at = "2026-02-19T10:00:00Z".to_string();
    job.every_ms = Some(5_000);
    let before = parse_rfc3339("2026-02-19T09:00:00Z").unwrap();
    assert_eq!(text_of(compute_next_run_at(&job, before).unwrap()), "2026-02-19T10:00:05+00:00");
    let boundary = parse_rfc3339("2026-02-19T10:00:10Z").unwrap();
    assert_eq!(text_of(compute_next_run_at(&job, boundary).unwrap()), "2026-02-19T10:00:15+00:00");
    job.every_ms = Some(0);
    assert!(compute_next_run_at(&job, boundary).is_none());
}

#[test]
fn disabled_job_has_no_next_run() {
    let mut job = build_job(SchedulerScheduleKind::Every);
    job.every_ms = Some(1_000);
    job.enabled = false;
    let now = parse_rfc3339("2026-02-19T10:00:00Z").unwrap();
    assert!(compute_next_run_at(&job, now).is_none());
}

#[test]
fn cron_in_named_zone_finds_next_minute() {
    let now = parse_rfc3339("2026-02-19T10:00:30Z").unwrap();
    let mut job = build_job(SchedulerScheduleKind::Cron);
    job.cron_expr = Some("0 * * * * * *".to_string());
    job.timezone = Some("Asia/Shanghai".to_string());
    let next = compute_next_run_at(&job, now).unwrap();
    assert_eq!(text_of(next), "2026-02-19T10:01:00+00:00");
}

#[test]
fn schedule_validation_reports_errors() {
    let mut job = build_job(SchedulerScheduleKind::Cron);
    assert!(validate_schedule_fields(&job).is_err());
    job.cron_expr = Some("not cron".to_string());
    assert!(validate_schedule_fields(&job).is_err());
    job.cron_expr = Some("0 * * * * * *".to_string());
    job.timezone = Some("Mars/Base".to_string());
    assert!(validate_schedule_fields(&job).is_err());
    job.timezone = Some("UTC".to_string());
    assert!(validate_schedule_fields(&job).is_ok());

    let mut at_job = build_job(SchedulerScheduleKind::At);
    assert!(validate_schedule_fields(&at_job).is_err());
    at_job.schedule_at = Some("2026-02-19T10:05:00Z".to_string());
    assert!(validate_schedule_fields(&at_job).is_ok());

    let mut every_job = build_job(SchedulerScheduleKind::Every);
    every_job.every_ms = Some(0);
    assert!(validate_schedule_fields(&every_job).is_err());
    every_job.every_ms = Some(999);
    assert!(validate_schedule_fields(&every_job).is_err());
    every_job.every_ms = Some(1_000);
    assert!(validate_schedule_fields(&every_job).is_ok());
}

#[test]
fn failed_run_waits_for_backoff() {
    let mut job = build_job(SchedulerScheduleKind::Every);
    job.created_at = "2026-02-19T10:00:00Z".to_string();
    job.every_ms = Some(5_000);
    let ended = parse_rfc3339("2026-02-19T10:00:10Z").unwrap();
    let next = compute_next_after_result(&job, SchedulerRunStatus::Error, ended, 1).unwrap();
    assert_eq!(text_of(next), "2026-02-19T10:00:40+00:00");
    let ok_next = compute_next_after_result(&job, SchedulerRunStatus::Success, ended, 0).unwrap();
    assert_eq!(text_of(ok_next), "2026-02-19T10:00:15+00:00");
}

#[test]
fn enum_names_round_trip() {
    for kind in [SchedulerScheduleKind::At, SchedulerScheduleKind::Every, SchedulerScheduleKind::Cron] {
        assert_eq!(SchedulerScheduleKind::from_str(kind.as_str()), Some(kind));
    }
    for target in [SchedulerSessionTarget::Main, SchedulerSessionTarget::Isolated, SchedulerSessionTarget::Heartbeat] {
        assert_eq!(SchedulerSessionTarget::from_str(target.as_str()), Some(target));
    }
    for source in [SchedulerRunSource::Job, SchedulerRunSource::Heartbeat] {
        assert_eq!(SchedulerRunSource::from_str(source.as_str()), Some(source));
    }
    assert_eq!(SchedulerRunStatus::Success.as_str(), "ok");
    assert_eq!(SchedulerRunStatus::from_str("ok"), Some(SchedulerRunStatus::Success));
    assert_eq!(SchedulerRunStatus::from_str("bogus"), None);
}
