//! The job lifecycle decisions of the scheduler: creating and patching
//! jobs, reconciling them at start-up, recording the outcome of a run, the
//! heartbeat, and the bookkeeping of what is running.
//!
//! Reading and writing the job store, spawning runs and emitting events
//! stay with the caller; each function here takes what was read and returns
//! what is to be written.

use vstd::prelude::*;
use crate::text::{
    trim_seq, trimmed_present, opt_view, trim, trim_present, owned, chars_of, string_of,
    lines_of, trim_chars, take_chars_exec, take_chars, lines_seq, str_eq,
};
use crate::config::{default_whitelist, default_whitelist_names, str_views, AutomationConfig, HeartbeatAutomationConfig};
use super::models::{SchedulerJob, SchedulerJobCreateInput, SchedulerJobPatchInput, SchedulerScheduleKind};
use super::schedule::{
    Timestamp, cron_searchable, chrono_representable, in_range, instant_text, to_rfc3339,
    schedule_error, schedule_fields_error, clamped_timeout, clamp_timeout_seconds, next_run_spec,
    validate_schedule_fields, compute_next_run_at,
};

verus! {

/// The default tool whitelist of a scheduled job.
pub fn default_job_tool_whitelist() -> (r: Vec<String>)
    ensures
        str_views(r@) == default_whitelist_names(),
{
    default_whitelist()
}

/// The text of an instant that `chrono` represents.
fn instant_string(t: Timestamp) -> (r: String)
    requires
        chrono_representable(t@),
        in_range(t@),
    ensures
        instant_text(t@) == Some(r@),
{
    to_rfc3339(Some(t)).unwrap()
}

/// The error `create_job` reports for an input, before any job is stored.
pub open spec fn create_error(input: SchedulerJobCreateInput) -> Option<Seq<char>> {
    if trim_seq(input.name@).len() == 0 {
        Some("name is required"@)
    } else if trim_seq(input.target_conversation_id@).len() == 0 {
        Some("target_conversation_id is required"@)
    } else if trim_seq(input.message@).len() == 0 {
        Some("message is required"@)
    } else {
        schedule_error(
            input.schedule_kind,
            opt_view(input.schedule_at),
            input.every_ms,
            opt_view(input.cron_expr),
            trimmed_present(input.timezone),
        )
    }
}

/// Builds a new job from its input, with the id and creation time given.
///
/// Text fields are trimmed and blank optional ones dropped; the tool
/// whitelist, timeout and `delete_after_run` (set for `at` jobs) take their
/// defaults; the next run is computed, and an `at` job with no future run is
/// created disabled.
pub fn new_job_from_input(input: SchedulerJobCreateInput, id: String, now: Timestamp) -> (r: Result<SchedulerJob, String>)
    requires
        cron_searchable(now@),
    ensures
        match r {
            Err(e) => create_error(input) == Some(e@),
            Ok(job) => {
                &&& create_error(input) is None
                &&& job.id@ == id@
                &&& job.name@ == trim_seq(input.name@)
                &&& opt_view(job.description) == trimmed_present(input.description)
                &&& job.schedule_kind == input.schedule_kind
                &&& opt_view(job.schedule_at) == opt_view(input.schedule_at)
                &&& job.every_ms == input.every_ms
                &&& opt_view(job.cron_expr) == opt_view(input.cron_expr)
                &&& opt_view(job.timezone) == trimmed_present(input.timezone)
                &&& job.session_target == input.session_target
                &&& job.target_conversation_id@ == trim_seq(input.target_conversation_id@)
                &&& job.message@ == trim_seq(input.message@)
                &&& opt_view(job.model_override) == trimmed_present(input.model_override)
                &&& opt_view(job.workspace_directory) == trimmed_present(input.workspace_directory)
                &&& (match input.tool_whitelist {
                    Some(w) => job.tool_whitelist@ == w@,
                    None => str_views(job.tool_whitelist@) == default_whitelist_names(),
                })
                &&& job.run_timeout_seconds == clamped_timeout(input.run_timeout_seconds)
                &&& job.delete_after_run == match input.delete_after_run {
                    Some(d) => d,
                    None => input.schedule_kind == SchedulerScheduleKind::At,
                }
                &&& job.running_at is None && job.last_run_at is None
                &&& job.last_status is None && job.last_error is None
                &&& job.last_duration_ms is None && job.consecutive_errors == 0
                &&& instant_text(now@) == Some(job.created_at@)
                &&& job.updated_at@ == job.created_at@
                &&& (next_run_spec(SchedulerJob { enabled: input.enabled.unwrap_or(true), ..job }, now@) matches Some(x)
                    ==> opt_view(job.next_run_at) == match x {
                        Some(t) => instant_text(t),
                        None => None,
                    })
                &&& job.enabled == (match input.enabled {
                    Some(e) => e,
                    None => true,
                } && !(job.next_run_at is None && input.schedule_kind == SchedulerScheduleKind::At))
            },
        },
{
    let is_at = input.schedule_kind == SchedulerScheduleKind::At;
    let created = instant_string(now);
    let name = trim(input.name.as_str());
    let target = trim(input.target_conversation_id.as_str());
    let message = trim(input.message.as_str());
    let tool_whitelist = match input.tool_whitelist {
        Some(w) => w,
        None => default_job_tool_whitelist(),
    };
    let enabled = match input.enabled {
        Some(e) => e,
        None => true,
    };
    let mut job = SchedulerJob {
        id: id,
        name: name,
        description: trim_present(&input.description),
        enabled: enabled,
        schedule_kind: input.schedule_kind,
        schedule_at: input.schedule_at,
        every_ms: input.every_ms,
        cron_expr: input.cron_expr,
        timezone: trim_present(&input.timezone),
        session_target: input.session_target,
        target_conversation_id: target,
        message: message,
        model_override: trim_present(&input.model_override),
        workspace_directory: trim_present(&input.workspace_directory),
        tool_whitelist: tool_whitelist,
        run_timeout_seconds: clamp_timeout_seconds(input.run_timeout_seconds),
        delete_after_run: match input.delete_after_run {
            Some(d) => d,
            None => is_at,
        },
        next_run_at: None,
        running_at: None,
        last_run_at: None,
        last_status: None,
        last_error: None,
        last_duration_ms: None,
        consecutive_errors: 0,
        created_at: created.clone(),
        updated_at: created,
    };
    if job.name.as_str().is_empty() {
        return Err(owned("name is required"));
    }
    if job.target_conversation_id.as_str().is_empty() {
        return Err(owned("target_conversation_id is required"));
    }
    if job.message.as_str().is_empty() {
        return Err(owned("message is required"));
    }
    proof {
        assert(trimmed_present(job.timezone) == trimmed_present(input.timezone)) by {
            match input.timezone {
                Some(z) => {
                    crate::text::lemma_trim_idempotent(z@);
                },
                None => {},
            }
        }
    }
    match validate_schedule_fields(&job) {
        Err(e) => {
            return Err(e);
        },
        Ok(()) => {},
    }
    let next = compute_next_run_at(&job, now);
    job.next_run_at = to_rfc3339(next);
    if job.next_run_at.is_none() && is_at {
        job.enabled = false;
    }
    Ok(job)
}

/// A job with a patch applied, before validation (`update_job`).
pub open spec fn patched_fields_hold(job: SchedulerJob, patch: SchedulerJobPatchInput, out: SchedulerJob) -> bool {
    &&& out.id == job.id
    &&& out.name@ == (match patch.name {
        Some(n) => if trim_seq(n@).len() > 0 {
            trim_seq(n@)
        } else {
            job.name@
        },
        None => job.name@,
    })
    &&& opt_view(out.description) == (match patch.description {
        Some(d) => trimmed_present(d),
        None => opt_view(job.description),
    })
    &&& out.enabled == (match patch.enabled {
        Some(e) => e,
        None => job.enabled,
    })
    &&& out.schedule_kind == (match patch.schedule_kind {
        Some(k) => k,
        None => job.schedule_kind,
    })
    &&& opt_view(out.schedule_at) == (match patch.schedule_at {
        Some(a) => trimmed_present(a),
        None => opt_view(job.schedule_at),
    })
    &&& out.every_ms == (match patch.every_ms {
        Some(e) => e,
        None => job.every_ms,
    })
    &&& opt_view(out.cron_expr) == (match patch.cron_expr {
        Some(c) => trimmed_present(c),
        None => opt_view(job.cron_expr),
    })
    &&& opt_view(out.timezone) == (match patch.timezone {
        Some(z) => trimmed_present(z),
        None => opt_view(job.timezone),
    })
    &&& out.session_target == (match patch.session_target {
        Some(t) => t,
        None => job.session_target,
    })
    &&& out.target_conversation_id@ == (match patch.target_conversation_id {
        Some(t) => if trim_seq(t@).len() > 0 {
            trim_seq(t@)
        } else {
            job.target_conversation_id@
        },
        None => job.target_conversation_id@,
    })
    &&& out.message@ == (match patch.message {
        Some(m) => if trim_seq(m@).len() > 0 {
            trim_seq(m@)
        } else {
            job.message@
        },
        None => job.message@,
    })
    &&& opt_view(out.model_override) == (match patch.model_override {
        Some(m) => trimmed_present(m),
        None => opt_view(job.model_override),
    })
    &&& opt_view(out.workspace_directory) == (match patch.workspace_directory {
        Some(w) => trimmed_present(w),
        None => opt_view(job.workspace_directory),
    })
    &&& out.tool_whitelist@ == (match patch.tool_whitelist {
        Some(w) => w@,
        None => job.tool_whitelist@,
    })
    &&& out.run_timeout_seconds == (match patch.run_timeout_seconds {
        Some(_) => clamped_timeout(patch.run_timeout_seconds),
        None => job.run_timeout_seconds as int,
    })
    &&& out.delete_after_run == (match patch.delete_after_run {
        Some(d) => d,
        None => job.delete_after_run,
    })
    &&& out.running_at == job.running_at
    &&& out.last_run_at == job.last_run_at
    &&& out.last_status == job.last_status
    &&& out.last_error == job.last_error
    &&& out.last_duration_ms == job.last_duration_ms
    &&& out.consecutive_errors == job.consecutive_errors
    &&& out.created_at == job.created_at
}

/// Replaces a text field when the patch carries a non-blank value.
fn patch_text(current: String, value: &Option<String>) -> (r: String)
    ensures
        r@ == (match *value {
            Some(n) => if trim_seq(n@).len() > 0 {
                trim_seq(n@)
            } else {
                current@
            },
            None => current@,
        }),
{
    match value {
        Some(n) => match crate::text::trim_non_blank(n.as_str()) {
            Some(t) => t,
            None => current,
        },
        None => current,
    }
}

/// Replaces an optional text field when the patch sets it (trimmed, blank
/// meaning absent).
fn patch_optional_text(current: Option<String>, value: &Option<Option<String>>) -> (r: Option<String>)
    ensures
        opt_view(r) == (match *value {
            Some(v) => trimmed_present(v),
            None => opt_view(current),
        }),
{
    match value {
        Some(v) => trim_present(v),
        None => current,
    }
}

/// Copies the fields a patch sets into a job.
fn patch_fields(job: SchedulerJob, patch: SchedulerJobPatchInput) -> (out: SchedulerJob)
    ensures
        patched_fields_hold(job, patch, out),
        out.next_run_at == job.next_run_at,
        out.updated_at == job.updated_at,
{
    let mut out = job;
    out.name = patch_text(out.name, &patch.name);
    out.description = patch_optional_text(out.description, &patch.description);
    if let Some(e) = patch.enabled {
        out.enabled = e;
    }
    if let Some(k) = patch.schedule_kind {
        out.schedule_kind = k;
    }
    out.schedule_at = patch_optional_text(out.schedule_at, &patch.schedule_at);
    if let Some(e) = patch.every_ms {
        out.every_ms = e;
    }
    out.cron_expr = patch_optional_text(out.cron_expr, &patch.cron_expr);
    out.timezone = patch_optional_text(out.timezone, &patch.timezone);
    if let Some(t) = patch.session_target {
        out.session_target = t;
    }
    out.target_conversation_id = patch_text(out.target_conversation_id, &patch.target_conversation_id);
    out.message = patch_text(out.message, &patch.message);
    out.model_override = patch_optional_text(out.model_override, &patch.model_override);
    out.workspace_directory = patch_optional_text(out.workspace_directory, &patch.workspace_directory);
    if patch.run_timeout_seconds.is_some() {
        out.run_timeout_seconds = clamp_timeout_seconds(patch.run_timeout_seconds);
    }
    if let Some(d) = patch.delete_after_run {
        out.delete_after_run = d;
    }
    match patch.tool_whitelist {
        Some(w) => {
            out.tool_whitelist = w;
        },
        None => {},
    }
    out
}

/// Applies a patch to a job and validates the result (`update_job`); the
/// next run is recomputed unless the job is running, and `updated_at` is
/// set to `now`.
pub fn apply_job_patch(job: SchedulerJob, patch: SchedulerJobPatchInput, now: Timestamp) -> (r: Result<SchedulerJob, String>)
    requires
        cron_searchable(now@),
    ensures
        match r {
            Err(e) => exists|out: SchedulerJob| patched_fields_hold(job, patch, out) && #[trigger] schedule_fields_error(out) == Some(e@),
            Ok(out) => {
                &&& patched_fields_hold(job, patch, out)
                &&& schedule_fields_error(out) is None
                &&& instant_text(now@) == Some(out.updated_at@)
                &&& (job.running_at is Some ==> out.next_run_at == job.next_run_at)
                &&& (job.running_at is None ==> (next_run_spec(out, now@) matches Some(x) ==> opt_view(out.next_run_at)
                    == match x {
                    Some(t) => instant_text(t),
                    None => None,
                }))
            },
        },
{
    let mut out = patch_fields(job, patch);
    match validate_schedule_fields(&out) {
        Err(e) => {
            return Err(e);
        },
        Ok(()) => {},
    }
    if out.running_at.is_none() {
        let next = compute_next_run_at(&out, now);
        out.next_run_at = to_rfc3339(next);
    }
    out.updated_at = instant_string(now);
    Ok(out)
}

/// Whether two optional strings are equal.
pub fn opt_str_eq(a: &Option<String>, b: &Option<String>) -> (r: bool)
    ensures
        r == (opt_view(*a) == opt_view(*b)),
{
    match (a, b) {
        (Some(x), Some(y)) => str_eq(x.as_str(), y.as_str()),
        (None, None) => true,
        _ => false,
    }
}

/// The text stored as a job's next run for an outcome of
/// `compute_next_run_at`.
pub open spec fn next_run_text(x: Option<int>) -> Option<Seq<char>> {
    match x {
        Some(t) => instant_text(t),
        None => None,
    }
}

/// Reconciles a stored job when the scheduler starts: a job marked as
/// running is not running any more; an enabled `at` job whose instant has
/// passed is disabled and recorded as skipped (`missed_at_on_startup`); any
/// other enabled job gets its next run recomputed. Returns the job and
/// whether it changed (then `updated_at` is `now`).
pub fn reconcile_job_on_startup(job: SchedulerJob, now: Timestamp) -> (r: (SchedulerJob, bool))
    requires
        cron_searchable(now@),
    ensures
        r.0.id == job.id && r.0.schedule_kind == job.schedule_kind,
        r.0.running_at is None,
        job.running_at is Some ==> r.1,
        !job.enabled ==> r.0.enabled == job.enabled && r.0.next_run_at == job.next_run_at
            && r.1 == job.running_at is Some,
        job.enabled && job.schedule_kind == SchedulerScheduleKind::At && next_run_spec(job, now@) == Some(None::<int>)
            ==> !r.0.enabled && r.0.next_run_at is None && r.0.last_status == Some(super::models::SchedulerRunStatus::Skipped)
            && (r.0.last_error matches Some(e) && e@ == "missed_at_on_startup"@) && r.1,
        job.enabled ==> (next_run_spec(job, now@) matches Some(x) ==> (x is Some ==> r.0.enabled
            && opt_view(r.0.next_run_at) == next_run_text(x)
            && r.1 == (job.running_at is Some || opt_view(job.next_run_at) != next_run_text(x)))),
        r.1 ==> instant_text(now@) == Some(r.0.updated_at@),
        !r.1 ==> r.0.updated_at == job.updated_at,
{
    let mut job = job;
    let mut changed = false;
    if job.running_at.is_some() {
        job.running_at = None;
        changed = true;
    }
    if job.enabled {
        let next = compute_next_run_at(&job, now);
        if job.schedule_kind == SchedulerScheduleKind::At && next.is_none() {
            job.enabled = false;
            job.next_run_at = None;
            job.last_status = Some(super::models::SchedulerRunStatus::Skipped);
            job.last_error = Some(owned("missed_at_on_startup"));
            changed = true;
        } else {
            let text = to_rfc3339(next);
            if !opt_str_eq(&job.next_run_at, &text) {
                job.next_run_at = text;
                changed = true;
            }
        }
    }
    if changed {
        job.updated_at = instant_string(now);
    }
    (job, changed)
}

/// `TimeDelta::num_milliseconds` of a span in nanoseconds: whole
/// milliseconds, truncated toward zero.
pub open spec fn whole_millis(span: int) -> int {
    if span >= 0 {
        span / 1_000_000
    } else {
        -((-span) / 1_000_000)
    }
}

/// `TimeDelta::num_minutes` of a span in nanoseconds.
pub open spec fn whole_minutes(span: int) -> int {
    if span >= 0 {
        span / 60_000_000_000
    } else {
        -((-span) / 60_000_000_000)
    }
}

/// Whole milliseconds of a span.
fn span_millis(span: i128) -> (r: i64)
    requires
        -9_000_000_000_000_000_000_000_000 < span < 9_000_000_000_000_000_000_000_000,
    ensures
        r == whole_millis(span as int),
{
    if span >= 0 {
        (span / 1_000_000) as i64
    } else {
        let m = (0 - span) / 1_000_000;
        (0 - m) as i64
    }
}

/// Records a finished run on the stored job (`run_job_execution`): the run
/// time, status, error and duration, the error streak, and what comes next.
/// A successful `at` job marked `delete_after_run` is to be deleted (second
/// component `true`); any other `at` job is disabled; a recurring job gets
/// its next run after the result.
pub fn record_run_outcome(
    latest: SchedulerJob,
    status: super::models::SchedulerRunStatus,
    error: Option<String>,
    started_at: Timestamp,
    ended_at: Timestamp,
) -> (r: (SchedulerJob, bool))
    requires
        cron_searchable(started_at@),
        cron_searchable(ended_at@),
        latest.consecutive_errors < i64::MAX,
    ensures
        r.0.id == latest.id,
        r.0.running_at is None,
        r.0.last_run_at matches Some(t) && instant_text(started_at@) == Some(t@),
        r.0.last_status == Some(status),
        r.0.last_error == error,
        r.0.last_duration_ms == Some(whole_millis(ended_at@ - started_at@) as i64),
        instant_text(ended_at@) == Some(r.0.updated_at@),
        r.0.consecutive_errors == if status == super::models::SchedulerRunStatus::Error {
            latest.consecutive_errors + 1
        } else {
            0
        },
        r.1 == (latest.schedule_kind == SchedulerScheduleKind::At && status == super::models::SchedulerRunStatus::Success
            && latest.delete_after_run),
        latest.schedule_kind == SchedulerScheduleKind::At && !r.1 ==> !r.0.enabled && r.0.next_run_at is None,
        latest.schedule_kind != SchedulerScheduleKind::At ==> r.0.enabled == latest.enabled
            && exists|normal: Option<int>|
                (next_run_spec(r.0, ended_at@) matches Some(x) ==> x == normal)
                && opt_view(r.0.next_run_at) == next_run_text(
                    super::schedule::next_after_result_spec(r.0, status, ended_at@, r.0.consecutive_errors, normal),
                ),
{
    let mut job = latest;
    job.running_at = None;
    job.last_run_at = Some(instant_string(started_at));
    job.last_status = Some(status);
    job.last_error = error;
    job.last_duration_ms = Some(span_millis(ended_at.nanos - started_at.nanos));
    job.updated_at = instant_string(ended_at);
    if status == super::models::SchedulerRunStatus::Error {
        job.consecutive_errors = job.consecutive_errors + 1;
    } else {
        job.consecutive_errors = 0;
    }
    let mut should_delete = false;
    if job.schedule_kind == SchedulerScheduleKind::At {
        if status == super::models::SchedulerRunStatus::Success && job.delete_after_run {
            should_delete = true;
        } else {
            job.enabled = false;
            job.next_run_at = None;
        }
    } else {
        let next = super::schedule::compute_next_after_result(&job, status, ended_at, job.consecutive_errors);
        let ghost before = job;
        job.next_run_at = to_rfc3339(next);
        proof {
            let n = choose|n: Option<Timestamp>|
                (next_run_spec(before, ended_at@) matches Some(x) ==> x == super::schedule::instant_opt(n))
                && super::schedule::instant_opt(next) == super::schedule::next_after_result_spec(
                    before, status, ended_at@, before.consecutive_errors, super::schedule::instant_opt(n));
            assert(next_run_spec(job, ended_at@) == next_run_spec(before, ended_at@));
            let w = super::schedule::instant_opt(n);
            assert((next_run_spec(job, ended_at@) matches Some(x) ==> x == w)
                && opt_view(job.next_run_at) == next_run_text(
                    super::schedule::next_after_result_spec(job, status, ended_at@, job.consecutive_errors, w)));
        }
    }
    (job, should_delete)
}

/// How many due jobs may be started now: none when the running jobs
/// already fill the concurrency limit (at least one), else the free slots.
pub open spec fn free_run_slots(max_concurrent_runs: u32, running: nat) -> Option<int> {
    let max = if max_concurrent_runs < 1 { 1int } else { max_concurrent_runs as int };
    if running >= max {
        None
    } else {
        Some(max - running)
    }
}

/// The number of due jobs to fetch and start in a poll, or `None` when no
/// more may run.
pub fn due_job_limit(automation: &AutomationConfig, running_count: usize) -> (r: Option<i64>)
    ensures
        match free_run_slots(automation.max_concurrent_runs, running_count as nat) {
            Some(n) => r == Some(n as i64),
            None => r is None,
        },
{
    let max_concurrent: u32 = if automation.max_concurrent_runs < 1 { 1 } else { automation.max_concurrent_runs };
    if running_count as u64 >= max_concurrent as u64 {
        return None;
    }
    Some((max_concurrent as u64 - running_count as u64) as i64)
}

/// Whether the heartbeat is due: it is enabled, and it never ran or at least
/// its interval (in whole minutes, at least one) has passed since it last did.
pub open spec fn heartbeat_is_due(heartbeat: HeartbeatAutomationConfig, last_run: Option<int>, now: int) -> bool {
    let interval = if heartbeat.every_minutes < 1 { 1int } else { heartbeat.every_minutes as int };
    heartbeat.enabled && match last_run {
        None => true,
        Some(t) => whole_minutes(now - t) >= interval,
    }
}

/// Decides whether the heartbeat runs now.
pub fn heartbeat_due(heartbeat: &HeartbeatAutomationConfig, last_run: Option<Timestamp>, now: Timestamp) -> (r: bool)
    requires
        last_run matches Some(t) ==> in_range(t@),
        in_range(now@),
    ensures
        r == heartbeat_is_due(*heartbeat, super::schedule::instant_opt(last_run), now@),
{
    if !heartbeat.enabled {
        return false;
    }
    let interval: i128 = if heartbeat.every_minutes < 1 { 1 } else { heartbeat.every_minutes as i128 };
    match last_run {
        None => true,
        Some(t) => {
            let span = now.nanos - t.nanos;
            let minutes: i128 = if span >= 0 {
                span / 60_000_000_000
            } else {
                0 - ((0 - span) / 60_000_000_000)
            };
            minutes >= interval
        },
    }
}

pub open spec fn missing_heartbeat_target_message() -> Seq<char> {
    "Heartbeat target conversation is not configured"@
}

/// The heartbeat job built for a target conversation (see `heartbeat_job`).
pub open spec fn is_heartbeat_job(job: SchedulerJob, heartbeat: HeartbeatAutomationConfig, target: Seq<char>, id: String, now: int) -> bool {
    &&& job.id == id
    &&& job.name@ == "Heartbeat"@
    &&& job.description matches Some(d) && d@ == "Periodic heartbeat task"@
    &&& job.enabled
    &&& job.schedule_kind == SchedulerScheduleKind::Every
    &&& job.schedule_at is None
    &&& job.every_ms matches Some(ms) && ms == (if heartbeat.every_minutes < 1 { 1int } else { heartbeat.every_minutes as int }) * 60_000
    &&& job.cron_expr is None
    &&& job.timezone is None
    &&& job.session_target == super::models::SchedulerSessionTarget::Heartbeat
    &&& job.target_conversation_id@ == target
    &&& job.message@ == heartbeat.prompt@
    &&& opt_view(job.model_override) == opt_view(heartbeat.model)
    &&& opt_view(job.workspace_directory) == opt_view(heartbeat.workspace_directory)
    &&& str_views(job.tool_whitelist@) == (if heartbeat.tool_whitelist@.len() == 0 {
        default_whitelist_names()
    } else {
        str_views(heartbeat.tool_whitelist@)
    })
    &&& job.run_timeout_seconds == 600
    &&& !job.delete_after_run
    &&& job.next_run_at is None
    &&& job.running_at is None
    &&& job.last_run_at is None
    &&& job.last_status is None
    &&& job.last_error is None
    &&& job.last_duration_ms is None
    &&& job.consecutive_errors == 0
    &&& instant_text(now) == Some(job.created_at@)
    &&& job.updated_at@ == job.created_at@
}

/// The job that runs the heartbeat prompt: it repeats every interval (in
/// minutes, at least one) in the heartbeat session of the target
/// conversation, with the configured prompt, model, workspace and tool
/// whitelist (the default one when empty), a ten-minute time limit, and
/// created at `now`. Fails when no target conversation is configured.
pub fn heartbeat_job(heartbeat: &HeartbeatAutomationConfig, id: String, now: Timestamp) -> (r: Result<SchedulerJob, String>)
    requires
        chrono_representable(now@),
        in_range(now@),
    ensures
        heartbeat.target_conversation_id is None ==> (r matches Err(e) && e@ == missing_heartbeat_target_message()),
        heartbeat.target_conversation_id matches Some(target) ==> (r matches Ok(job)
            && is_heartbeat_job(job, *heartbeat, target@, id, now@)),
{
    let target = match &heartbeat.target_conversation_id {
        Some(t) => t.clone(),
        None => {
            return Err(owned("Heartbeat target conversation is not configured"));
        },
    };
    let interval: i64 = if heartbeat.every_minutes < 1 { 1 } else { heartbeat.every_minutes as i64 };
    let whitelist = if heartbeat.tool_whitelist.len() == 0 {
        default_job_tool_whitelist()
    } else {
        clone_strings(&heartbeat.tool_whitelist)
    };
    let created = instant_string(now);
    let updated = created.clone();
    Ok(SchedulerJob {
        id,
        name: owned("Heartbeat"),
        description: Some(owned("Periodic heartbeat task")),
        enabled: true,
        schedule_kind: SchedulerScheduleKind::Every,
        schedule_at: None,
        every_ms: Some(interval * 60_000),
        cron_expr: None,
        timezone: None,
        session_target: super::models::SchedulerSessionTarget::Heartbeat,
        target_conversation_id: target,
        message: heartbeat.prompt.clone(),
        model_override: heartbeat.model.clone(),
        workspace_directory: heartbeat.workspace_directory.clone(),
        tool_whitelist: whitelist,
        run_timeout_seconds: 600,
        delete_after_run: false,
        next_run_at: None,
        running_at: None,
        last_run_at: None,
        last_status: None,
        last_error: None,
        last_duration_ms: None,
        consecutive_errors: 0,
        created_at: created,
        updated_at: updated,
    })
}

fn clone_strings(v: &Vec<String>) -> (r: Vec<String>)
    ensures
        str_views(r@) == str_views(v@),
{
    let mut out: Vec<String> = Vec::new();
    let mut i: usize = 0;
    while i < v.len()
        invariant
            i <= v.len(),
            str_views(out@) =~= str_views(v@.take(i as int)),
        decreases v.len() - i,
    {
        let ghost before = out@;
        out.push(v[i].clone());
        assert(str_views(out@) =~= str_views(before).push(v@[i as int]@));
        i += 1;
        assert(str_views(v@.take(i as int)) =~= str_views(v@.take(i - 1)).push(v@[i - 1]@));
    }
    assert(v@.take(v.len() as int) =~= v@);
    out
}

/// Whether one of the strings has this text.
pub open spec fn in_ids(v: Seq<String>, s: Seq<char>) -> bool {
    exists|k: int| 0 <= k < v.len() && v[k]@ == s
}

proof fn lemma_in_ids_push(v: Seq<String>, x: String, s: Seq<char>)
    ensures
        in_ids(v.push(x), s) <==> (in_ids(v, s) || x@ == s),
{
    if in_ids(v, s) {
        let k = choose|k: int| 0 <= k < v.len() && v[k]@ == s;
        assert(v.push(x)[k] == v[k]);
    }
    if x@ == s {
        assert(v.push(x)[v.len() as int] == x);
    }
    if in_ids(v.push(x), s) {
        let k = choose|k: int| 0 <= k < v.len() + 1 && v.push(x)[k]@ == s;
        if k < v.len() {
            assert(v.push(x)[k] == v[k]);
        }
    }
}

/// The ids of the jobs that are running, each once.
pub struct RunningJobs {
    pub ids: Vec<String>,
}

impl RunningJobs {
    pub open spec fn id_set(self) -> Set<Seq<char>> {
        Set::new(|s: Seq<char>| in_ids(self.ids@, s))
    }

    /// No id is listed twice.
    pub open spec fn wf(self) -> bool {
        forall|i: int, j: int| 0 <= i < j < self.ids@.len() ==> #[trigger] self.ids@[i]@ != #[trigger] self.ids@[j]@
    }

    /// Nothing running.
    pub fn new() -> (r: Self)
        ensures
            r.wf(),
            r.id_set() == Set::<Seq<char>>::empty(),
    {
        let r = RunningJobs { ids: Vec::new() };
        assert(r.id_set() =~= Set::<Seq<char>>::empty());
        r
    }

    /// Whether the job is running.
    pub fn contains(&self, id: &str) -> (r: bool)
        ensures
            r == self.id_set().contains(id@),
    {
        let mut i: usize = 0;
        while i < self.ids.len()
            invariant
                i <= self.ids.len(),
                forall|j: int| 0 <= j < i ==> self.ids@[j]@ != id@,
            decreases self.ids.len() - i,
        {
            if str_eq(self.ids[i].as_str(), id) {
                return true;
            }
            i += 1;
        }
        false
    }

    /// How many jobs are running.
    pub fn len(&self) -> (r: usize)
        requires
            self.wf(),
        ensures
            r == self.id_set().len(),
    {
        proof {
            self.lemma_len();
        }
        self.ids.len()
    }

    proof fn lemma_len(self)
        requires
            self.wf(),
        ensures
            self.id_set().finite(),
            self.id_set().len() == self.ids@.len(),
    {
        let views = self.ids@.map_values(|s: String| s@);
        assert forall|s: Seq<char>| #[trigger] self.id_set().contains(s) <==> views.to_set().contains(s) by {
            if self.id_set().contains(s) {
                let k = choose|k: int| 0 <= k < self.ids@.len() && self.ids@[k]@ == s;
                assert(views[k] == s);
            }
            if views.to_set().contains(s) {
                let k = choose|k: int| 0 <= k < views.len() && views[k] == s;
                assert(self.ids@[k]@ == s);
            }
        }
        assert(self.id_set() =~= views.to_set());
        assert forall|i: int, j: int| 0 <= i < views.len() && 0 <= j < views.len() && i != j implies views[i] != views[j] by {
            if i < j {
                assert(self.ids@[i]@ != self.ids@[j]@);
            } else {
                assert(self.ids@[j]@ != self.ids@[i]@);
            }
        }
        assert(views.no_duplicates());
        views.unique_seq_to_set();
    }

    /// Marks a job as running, unless it already is: `start_job_execution`
    /// and the heartbeat refuse to start a job twice.
    pub fn try_start(&mut self, id: &str) -> (r: bool)
        requires
            old(self).wf(),
        ensures
            final(self).wf(),
            r == !old(self).id_set().contains(id@),
            final(self).id_set() == old(self).id_set().insert(id@),
    {
        if self.contains(id) {
            assert(self.id_set().insert(id@) =~= self.id_set());
            return false;
        }
        let ghost before = self.ids@;
        let name = owned(id);
        self.ids.push(name);
        proof {
            assert forall|i: int, j: int| 0 <= i < j < self.ids@.len() implies #[trigger] self.ids@[i]@ != #[trigger] self.ids@[j]@ by {
                if j == self.ids@.len() - 1 {
                    assert(self.ids@[i] == before[i]);
                } else {
                    assert(self.ids@[i] == before[i] && self.ids@[j] == before[j]);
                }
            }
            assert forall|s: Seq<char>| #[trigger] self.id_set().contains(s) <==> old(self).id_set().insert(id@).contains(s) by {
                lemma_in_ids_push(before, name, s);
            }
            assert(self.id_set() =~= old(self).id_set().insert(id@));
        }
        true
    }

    /// Marks a job as no longer running.
    pub fn finish(&mut self, id: &str)
        requires
            old(self).wf(),
        ensures
            final(self).wf(),
            final(self).id_set() == old(self).id_set().remove(id@),
    {
        let ghost before = self.ids@;
        let mut kept: Vec<String> = Vec::new();
        let mut i: usize = 0;
        while i < self.ids.len()
            invariant
                i <= self.ids.len(),
                self.ids@ == before,
                forall|a: int, b: int| 0 <= a < b < before.len() ==> #[trigger] before[a]@ != #[trigger] before[b]@,
                forall|a: int, b: int| 0 <= a < b < kept@.len() ==> #[trigger] kept@[a]@ != #[trigger] kept@[b]@,
                forall|s: Seq<char>| #[trigger] in_ids(kept@, s) <==> (s != id@ && in_ids(before.take(i as int), s)),
            decreases self.ids.len() - i,
        {
            let ghost kb = kept@;
            let ghost x = before[i as int];
            assert(before.take(i + 1) =~= before.take(i as int).push(x));
            if !str_eq(self.ids[i].as_str(), id) {
                let item = self.ids[i].clone();
                kept.push(item);
                proof {
                    assert(!in_ids(kb, x@)) by {
                        if in_ids(kb, x@) {
                            assert(in_ids(before.take(i as int), x@));
                            let k = choose|k: int| 0 <= k < i && before.take(i as int)[k]@ == x@;
                            assert(before[k]@ != before[i as int]@);
                        }
                    }
                    assert forall|a: int, b: int| 0 <= a < b < kept@.len() implies #[trigger] kept@[a]@ != #[trigger] kept@[b]@ by {
                        if b == kept@.len() - 1 {
                            assert(kept@[a] == kb[a]);
                            assert(in_ids(kb, kb[a]@));
                        } else {
                            assert(kept@[a] == kb[a] && kept@[b] == kb[b]);
                        }
                    }
                    assert forall|s: Seq<char>| #[trigger] in_ids(kept@, s) <==> (s != id@ && in_ids(before.take(i + 1), s)) by {
                        lemma_in_ids_push(kb, item, s);
                        lemma_in_ids_push(before.take(i as int), x, s);
                    }
                }
            } else {
                proof {
                    assert forall|s: Seq<char>| #[trigger] in_ids(kept@, s) <==> (s != id@ && in_ids(before.take(i + 1), s)) by {
                        lemma_in_ids_push(before.take(i as int), x, s);
                    }
                }
            }
            i += 1;
        }
        assert(before.take(before.len() as int) =~= before);
        self.ids = kept;
        proof {
            assert forall|s: Seq<char>| #[trigger] self.id_set().contains(s) <==> old(self).id_set().remove(id@).contains(s) by {}
            assert(self.id_set() =~= old(self).id_set().remove(id@));
        }
    }
}

/// Starting a job that is already running is refused, and the set of
/// running jobs stays as it was.
pub proof fn lemma_no_double_start(running: RunningJobs, id: Seq<char>)
    requires
        running.id_set().contains(id),
    ensures
        running.id_set().insert(id) == running.id_set(),
{
    assert(running.id_set().insert(id) =~= running.id_set());
}

/// A job that started and then finished is no longer running, and the
/// other jobs are as they were.
pub proof fn lemma_start_then_finish(running: Set<Seq<char>>, id: Seq<char>)
    requires
        !running.contains(id),
    ensures
        running.insert(id).remove(id) == running,
{
    assert(running.insert(id).remove(id) =~= running);
}

/// The summary posted after a run: the first non-blank line of the output
/// (trimmed, at most 220 characters), or `(empty)` for a blank output.
pub open spec fn run_summary(raw: Seq<char>) -> Seq<char> {
    let t = trim_seq(raw);
    if t.len() == 0 {
        "(empty)"@
    } else if exists|i: int| 0 <= i < lines_seq(t).len() && trim_seq(lines_seq(t)[i]).len() > 0 {
        let i = choose|i: int| 0 <= i < lines_seq(t).len() && trim_seq(lines_seq(t)[i]).len() > 0
            && forall|j: int| 0 <= j < i ==> trim_seq(lines_seq(t)[j]).len() == 0;
        take_chars(trim_seq(lines_seq(t)[i]), 220)
    } else {
        take_chars(t, 220)
    }
}

/// Summarises a run's output (see `run_summary`).
pub fn summarize_text(raw: &str) -> (r: String)
    ensures
        r@ == run_summary(raw@),
{
    let cs = chars_of(raw);
    let t = trim_chars(cs.as_slice());
    if t.len() == 0 {
        return owned("(empty)");
    }
    let lines = lines_of(t.as_slice());
    let mut i: usize = 0;
    while i < lines.len()
        invariant
            i <= lines.len(),
            t@ == trim_seq(raw@),
            t@.len() > 0,
            lines@.len() == lines_seq(t@).len(),
            forall|k: int| 0 <= k < lines@.len() ==> #[trigger] lines@[k]@ == lines_seq(t@)[k],
            forall|j: int| 0 <= j < i ==> trim_seq(#[trigger] lines_seq(t@)[j]).len() == 0,
        decreases lines.len() - i,
    {
        let line = trim_chars(lines[i].as_slice());
        if line.len() > 0 {
            let first = take_chars_exec(line.as_slice(), 220);
            proof {
                assert(lines@[i as int]@ == lines_seq(t@)[i as int]);
                assert(t@ == trim_seq(raw@));
                assert(trim_seq(lines_seq(t@)[i as int]).len() > 0);
                assert(0 <= i < lines_seq(t@).len() && trim_seq(lines_seq(t@)[i as int]).len() > 0
                    && forall|j: int| 0 <= j < i ==> trim_seq(lines_seq(t@)[j]).len() == 0);
                let w = choose|w: int| 0 <= w < lines_seq(t@).len() && trim_seq(lines_seq(t@)[w]).len() > 0
                    && forall|j: int| 0 <= j < w ==> trim_seq(lines_seq(t@)[j]).len() == 0;
                assert(w == i) by {
                    if w < i {
                        assert(trim_seq(lines_seq(t@)[w]).len() == 0);
                    }
                    if w > i {
                        assert(trim_seq(lines_seq(t@)[i as int]).len() == 0);
                    }
                }
            }
            return string_of(first.as_slice());
        }
        i += 1;
    }
    let all = take_chars_exec(t.as_slice(), 220);
    string_of(all.as_slice())
}

} // verus!
