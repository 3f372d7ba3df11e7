//! The scheduler's data model.

use vstd::prelude::*;
use crate::text::{str_eq, owned};

verus! {

/// How a job's run times are determined.
#[derive(Debug, Clone, Copy, PartialEq, Eq, Structural)]
pub enum SchedulerScheduleKind {
    At,
    Every,
    Cron,
}

/// The stored name of a schedule kind.
pub open spec fn schedule_kind_text(k: SchedulerScheduleKind) -> Seq<char> {
    match k {
        SchedulerScheduleKind::At => "at"@,
        SchedulerScheduleKind::Every => "every"@,
        SchedulerScheduleKind::Cron => "cron"@,
    }
}

/// The schedule kind a stored name denotes.
pub open spec fn schedule_kind_from_text(s: Seq<char>) -> Option<SchedulerScheduleKind> {
    if s == "at"@ {
        Some(SchedulerScheduleKind::At)
    } else if s == "every"@ {
        Some(SchedulerScheduleKind::Every)
    } else if s == "cron"@ {
        Some(SchedulerScheduleKind::Cron)
    } else {
        None
    }
}

impl SchedulerScheduleKind {
    pub fn as_str(&self) -> (r: &'static str)
        ensures
            r@ == schedule_kind_text(*self),
    {
        match self {
            Self::At => "at",
            Self::Every => "every",
            Self::Cron => "cron",
        }
    }

    pub fn from_str(value: &str) -> (r: Option<Self>)
        ensures
            r == schedule_kind_from_text(value@),
    {
        if str_eq(value, "at") {
            Some(Self::At)
        } else if str_eq(value, "every") {
            Some(Self::Every)
        } else if str_eq(value, "cron") {
            Some(Self::Cron)
        } else {
            None
        }
    }
}

/// Which conversation context a run uses.
#[derive(Debug, Clone, Copy, PartialEq, Eq, Structural)]
pub enum SchedulerSessionTarget {
    Main,
    Isolated,
    Heartbeat,
}

pub open spec fn session_target_text(t: SchedulerSessionTarget) -> Seq<char> {
    match t {
        SchedulerSessionTarget::Main => "main"@,
        SchedulerSessionTarget::Isolated => "isolated"@,
        SchedulerSessionTarget::Heartbeat => "heartbeat"@,
    }
}

pub open spec fn session_target_from_text(s: Seq<char>) -> Option<SchedulerSessionTarget> {
    if s == "main"@ {
        Some(SchedulerSessionTarget::Main)
    } else if s == "isolated"@ {
        Some(SchedulerSessionTarget::Isolated)
    } else if s == "heartbeat"@ {
        Some(SchedulerSessionTarget::Heartbeat)
    } else {
        None
    }
}

impl SchedulerSessionTarget {
    pub fn as_str(&self) -> (r: &'static str)
        ensures
            r@ == session_target_text(*self),
    {
        match self {
            Self::Main => "main",
            Self::Isolated => "isolated",
            Self::Heartbeat => "heartbeat",
        }
    }

    pub fn from_str(value: &str) -> (r: Option<Self>)
        ensures
            r == session_target_from_text(value@),
    {
        if str_eq(value, "main") {
            Some(Self::Main)
        } else if str_eq(value, "isolated") {
            Some(Self::Isolated)
        } else if str_eq(value, "heartbeat") {
            Some(Self::Heartbeat)
        } else {
            None
        }
    }
}

/// What started a run.
#[derive(Debug, Clone, Copy, PartialEq, Eq, Structural)]
pub enum SchedulerRunSource {
    Job,
    Heartbeat,
}

pub open spec fn run_source_text(s: SchedulerRunSource) -> Seq<char> {
    match s {
        SchedulerRunSource::Job => "job"@,
        SchedulerRunSource::Heartbeat => "heartbeat"@,
    }
}

pub open spec fn run_source_from_text(s: Seq<char>) -> Option<SchedulerRunSource> {
    if s == "job"@ {
        Some(SchedulerRunSource::Job)
    } else if s == "heartbeat"@ {
        Some(SchedulerRunSource::Heartbeat)
    } else {
        None
    }
}

impl SchedulerRunSource {
    pub fn as_str(&self) -> (r: &'static str)
        ensures
            r@ == run_source_text(*self),
    {
        match self {
            Self::Job => "job",
            Self::Heartbeat => "heartbeat",
        }
    }

    pub fn from_str(value: &str) -> (r: Option<Self>)
        ensures
            r == run_source_from_text(value@),
    {
        if str_eq(value, "job") {
            Some(Self::Job)
        } else if str_eq(value, "heartbeat") {
            Some(Self::Heartbeat)
        } else {
            None
        }
    }
}

/// How a run ended.
#[derive(Debug, Clone, Copy, PartialEq, Eq, Structural)]
pub enum SchedulerRunStatus {
    Success,
    Error,
    Skipped,
}

pub open spec fn run_status_text(s: SchedulerRunStatus) -> Seq<char> {
    match s {
        SchedulerRunStatus::Success => "ok"@,
        SchedulerRunStatus::Error => "error"@,
        SchedulerRunStatus::Skipped => "skipped"@,
    }
}

pub open spec fn run_status_from_text(s: Seq<char>) -> Option<SchedulerRunStatus> {
    if s == "ok"@ {
        Some(SchedulerRunStatus::Success)
    } else if s == "error"@ {
        Some(SchedulerRunStatus::Error)
    } else if s == "skipped"@ {
        Some(SchedulerRunStatus::Skipped)
    } else {
        None
    }
}

impl SchedulerRunStatus {
    pub fn as_str(&self) -> (r: &'static str)
        ensures
            r@ == run_status_text(*self),
    {
        match self {
            Self::Success => "ok",
            Self::Error => "error",
            Self::Skipped => "skipped",
        }
    }

    pub fn from_str(value: &str) -> (r: Option<Self>)
        ensures
            r == run_status_from_text(value@),
    {
        if str_eq(value, "ok") {
            Some(Self::Success)
        } else if str_eq(value, "error") {
            Some(Self::Error)
        } else if str_eq(value, "skipped") {
            Some(Self::Skipped)
        } else {
            None
        }
    }
}

/// Every stored name reads back as the value it was written from.
pub proof fn lemma_scheduler_names_round_trip()
    ensures
        forall|k: SchedulerScheduleKind| schedule_kind_from_text(#[trigger] schedule_kind_text(k)) == Some(k),
        forall|t: SchedulerSessionTarget| session_target_from_text(#[trigger] session_target_text(t)) == Some(t),
        forall|s: SchedulerRunSource| run_source_from_text(#[trigger] run_source_text(s)) == Some(s),
        forall|s: SchedulerRunStatus| run_status_from_text(#[trigger] run_status_text(s)) == Some(s),
{
    reveal_strlit("at");
    reveal_strlit("every");
    reveal_strlit("cron");
    reveal_strlit("main");
    reveal_strlit("isolated");
    reveal_strlit("heartbeat");
    reveal_strlit("job");
    reveal_strlit("ok");
    reveal_strlit("error");
    reveal_strlit("skipped");
    assert("every"@.len() == 5 && "at"@.len() == 2 && "cron"@.len() == 4);
    assert("every"@ != "at"@);
    assert("cron"@ != "at"@ && "cron"@ != "every"@);
    assert("main"@.len() == 4 && "isolated"@.len() == 8 && "heartbeat"@.len() == 9);
    assert("job"@.len() == 3 && "ok"@.len() == 2 && "error"@.len() == 5 && "skipped"@.len() == 7);
    assert("isolated"@ != "main"@);
    assert("heartbeat"@ != "main"@ && "heartbeat"@ != "isolated"@);
    assert("heartbeat"@ != "job"@);
    assert("error"@ != "ok"@);
    assert("skipped"@ != "ok"@ && "skipped"@ != "error"@);
    assert forall|k: SchedulerScheduleKind| schedule_kind_from_text(#[trigger] schedule_kind_text(k)) == Some(k) by {
        match k { SchedulerScheduleKind::At => {}, SchedulerScheduleKind::Every => {}, SchedulerScheduleKind::Cron => {} }
    }
    assert forall|t: SchedulerSessionTarget| session_target_from_text(#[trigger] session_target_text(t)) == Some(t) by {
        match t { SchedulerSessionTarget::Main => {}, SchedulerSessionTarget::Isolated => {}, SchedulerSessionTarget::Heartbeat => {} }
    }
}

/// A persisted scheduler job.
#[derive(Debug, Clone)]
pub struct SchedulerJob {
    pub id: String,
    pub name: String,
    pub description: Option<String>,
    pub enabled: bool,
    pub schedule_kind: SchedulerScheduleKind,
    pub schedule_at: Option<String>,
    pub every_ms: Option<i64>,
    pub cron_expr: Option<String>,
    pub timezone: Option<String>,
    pub session_target: SchedulerSessionTarget,
    pub target_conversation_id: String,
    pub message: String,
    pub model_override: Option<String>,
    pub workspace_directory: Option<String>,
    pub tool_whitelist: Vec<String>,
    pub run_timeout_seconds: i64,
    pub delete_after_run: bool,
    pub next_run_at: Option<String>,
    pub running_at: Option<String>,
    pub last_run_at: Option<String>,
    pub last_status: Option<SchedulerRunStatus>,
    pub last_error: Option<String>,
    pub last_duration_ms: Option<i64>,
    pub consecutive_errors: i64,
    pub created_at: String,
    pub updated_at: String,
}

/// Scheduler state reported to the user interface.
#[derive(Debug, Clone)]
pub struct SchedulerStatus {
    pub enabled: bool,
    pub heartbeat_enabled: bool,
    pub running_jobs: usize,
    pub next_wake_at: Option<String>,
}

/// Fields of a job to be created.
#[derive(Debug, Clone)]
pub struct SchedulerJobCreateInput {
    pub name: String,
    pub description: Option<String>,
    pub enabled: Option<bool>,
    pub schedule_kind: SchedulerScheduleKind,
    pub schedule_at: Option<String>,
    pub every_ms: Option<i64>,
    pub cron_expr: Option<String>,
    pub timezone: Option<String>,
    pub session_target: SchedulerSessionTarget,
    pub target_conversation_id: String,
    pub message: String,
    pub model_override: Option<String>,
    pub workspace_directory: Option<String>,
    pub tool_whitelist: Option<Vec<String>>,
    pub run_timeout_seconds: Option<i64>,
    pub delete_after_run: Option<bool>,
}

/// A partial update of a job; `None` leaves a field unchanged, and for the
/// optional fields `Some(None)` clears it.
#[derive(Debug, Clone)]
pub struct SchedulerJobPatchInput {
    pub name: Option<String>,
    pub description: Option<Option<String>>,
    pub enabled: Option<bool>,
    pub schedule_kind: Option<SchedulerScheduleKind>,
    pub schedule_at: Option<Option<String>>,
    pub every_ms: Option<Option<i64>>,
    pub cron_expr: Option<Option<String>>,
    pub timezone: Option<Option<String>>,
    pub session_target: Option<SchedulerSessionTarget>,
    pub target_conversation_id: Option<String>,
    pub message: Option<String>,
    pub model_override: Option<Option<String>>,
    pub workspace_directory: Option<Option<String>>,
    pub tool_whitelist: Option<Vec<String>>,
    pub run_timeout_seconds: Option<i64>,
    pub delete_after_run: Option<bool>,
}

impl SchedulerJobPatchInput {
    /// A patch that changes nothing.
    pub fn empty() -> (r: Self)
        ensures
            r.name is None && r.description is None && r.enabled is None
                && r.schedule_kind is None && r.schedule_at is None && r.every_ms is None
                && r.cron_expr is None && r.timezone is None && r.session_target is None
                && r.target_conversation_id is None && r.message is None
                && r.model_override is None && r.workspace_directory is None
                && r.tool_whitelist is None && r.run_timeout_seconds is None
                && r.delete_after_run is None,
    {
        SchedulerJobPatchInput {
            name: None,
            description: None,
            enabled: None,
            schedule_kind: None,
            schedule_at: None,
            every_ms: None,
            cron_expr: None,
            timezone: None,
            session_target: None,
            target_conversation_id: None,
            message: None,
            model_override: None,
            workspace_directory: None,
            tool_whitelist: None,
            run_timeout_seconds: None,
            delete_after_run: None,
        }
    }
}

/// The answer to a request to start a run.
#[derive(Debug, Clone)]
pub struct SchedulerRunRequest {
    pub accepted: bool,
    pub reason: Option<String>,
}

impl SchedulerRunRequest {
    /// An accepted request.
    pub fn accepted() -> (r: Self)
        ensures
            r.accepted && r.reason is None,
    {
        SchedulerRunRequest { accepted: true, reason: None }
    }

    /// A refused request with its reason.
    pub fn refused(reason: &str) -> (r: Self)
        ensures
            !r.accepted,
            r.reason matches Some(t) && t@ == reason@,
    {
        SchedulerRunRequest { accepted: false, reason: Some(owned(reason)) }
    }
}

} // verus!
