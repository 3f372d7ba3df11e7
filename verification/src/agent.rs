//! Small decisions of the agent loop: the guard against a model that keeps
//! repeating the same tool calls, binary file detection, and the checks on
//! the arguments of the scheduler, session and skill tools.

use vstd::prelude::*;
use crate::text::{owned, str_eq, chars_of, push_all, string_of, chars_eq, lower_chars, lower_seq, trim_present, trimmed_present};
use crate::web_tools::{clamp_u64, clamped, number_or};
use crate::models::Skill;
use crate::scheduler::models::{SchedulerSessionTarget, SchedulerScheduleKind, SchedulerJobCreateInput, SchedulerJobPatchInput};

verus! {

/// How many rounds in a row ended with the same tool calls as the round
/// before them.
pub open spec fn trailing_repeats(signatures: Seq<Seq<char>>) -> nat
    decreases signatures.len(),
{
    if signatures.len() <= 1 {
        0
    } else if signatures.last() == signatures[signatures.len() - 2] {
        1 + trailing_repeats(signatures.drop_last())
    } else {
        0
    }
}

/// The repeat counter after a round whose calls have signature `sig`:
/// one more when the last round had the same signature, else zero.
pub open spec fn repeats_after(last: Option<Seq<char>>, count: nat, sig: Seq<char>) -> nat {
    match last {
        Some(s) => if s == sig { count + 1 } else { 0 },
        None => 0,
    }
}

/// A turn whose model asks for the same tool calls three rounds running is
/// stopped at the third round and not before: from the start of a turn,
/// the counter reaches the guard's limit of two exactly then.
pub proof fn lemma_third_identical_round_stops(sig: Seq<char>)
    ensures
        repeats_after(None, 0, sig) == 0,
        repeats_after(Some(sig), repeats_after(None, 0, sig), sig) == 1,
        repeats_after(Some(sig), repeats_after(Some(sig), repeats_after(None, 0, sig), sig), sig) == 2,
{
}

/// After a round: the counter grows by one when the round's signature is
/// the same as the last one, and starts again from zero otherwise; the
/// round's signature becomes the last one.
pub fn update_repeated_signature_rounds(
    last_tool_signature: &mut Option<String>,
    repeated_signature_rounds: &mut usize,
    current_signature: String,
)
    requires
        *old(repeated_signature_rounds) < usize::MAX,
    ensures
        *final(repeated_signature_rounds) == (if (match *old(last_tool_signature) {
            Some(s) => s@ == current_signature@,
            None => false,
        }) {
            *old(repeated_signature_rounds) + 1
        } else {
            0
        }),
        *final(last_tool_signature) == Some(current_signature),
{
    let same = match last_tool_signature {
        Some(s) => str_eq(s.as_str(), current_signature.as_str()),
        None => false,
    };
    if same {
        *repeated_signature_rounds += 1;
    } else {
        *repeated_signature_rounds = 0;
    }
    *last_tool_signature = Some(current_signature);
}

/// The number of repeated rounds after which the loop is stopped.
pub const REPEATED_ROUNDS_LIMIT: usize = 2;

/// The message shown when the loop is stopped for repeating itself.
pub open spec fn repeated_tool_guard_text() -> Seq<char> {
    "Detected repeated identical tool calls from the model. Automatic tool loop was stopped. Please provide a more specific target (file/directory) and try again."@
}

/// Whether the agent loop must stop: the same calls came back in two
/// rounds in a row after the first.
pub fn should_stop_for_repeats(repeated_signature_rounds: usize) -> (r: bool)
    ensures
        r == (repeated_signature_rounds >= 2),
{
    repeated_signature_rounds >= REPEATED_ROUNDS_LIMIT
}

/// The counter of `update_repeated_signature_rounds` is the number of
/// trailing repeated rounds of the signatures seen so far.
pub proof fn lemma_guard_counts_trailing_repeats(signatures: Seq<Seq<char>>, current: Seq<char>, rounds: nat)
    requires
        signatures.len() > 0,
        rounds == trailing_repeats(signatures),
    ensures
        trailing_repeats(signatures.push(current)) == if signatures.last() == current {
            rounds + 1
        } else {
            0
        },
{
    let s = signatures.push(current);
    assert(s.drop_last() =~= signatures);
    assert(s[s.len() - 2] == signatures.last());
}

/// Whether the first 8192 bytes of a file hold a zero byte.
pub open spec fn looks_binary(bytes: Seq<u8>) -> bool {
    exists|i: int| 0 <= i < bytes.len() && i < 8192 && bytes[i] == 0
}

/// Treats a file as binary when a zero byte occurs among its first 8192
/// bytes.
pub fn is_probably_binary(bytes: &[u8]) -> (r: bool)
    ensures
        r == looks_binary(bytes@),
{
    let limit: usize = if bytes.len() < 8192 { bytes.len() } else { 8192 };
    let mut i: usize = 0;
    while i < limit
        invariant
            limit <= bytes.len(),
            limit <= 8192,
            limit == bytes.len() || limit == 8192,
            i <= limit,
            forall|j: int| 0 <= j < i ==> bytes@[j] != 0,
        decreases limit - i,
    {
        if bytes[i] == 0 {
            return true;
        }
        i += 1;
    }
    false
}

pub open spec fn heartbeat_target_message() -> Seq<char> {
    "scheduler jobs cannot use session_target=heartbeat"@
}

/// Scheduler tools may not create or move jobs into the heartbeat session.
pub fn validate_scheduler_session_target(session_target: SchedulerSessionTarget) -> (r: Result<(), String>)
    ensures
        session_target == SchedulerSessionTarget::Heartbeat ==> (r matches Err(e) && e@ == heartbeat_target_message()),
        session_target != SchedulerSessionTarget::Heartbeat ==> r is Ok,
{
    match session_target {
        SchedulerSessionTarget::Heartbeat => Err(owned("scheduler jobs cannot use session_target=heartbeat")),
        _ => Ok(()),
    }
}

/// Keeps the last `max_chars` characters of a process's captured output.
pub fn trim_process_output(buffer: &mut String, max_chars: usize)
    ensures
        final(buffer)@ == crate::text::tail_chars(old(buffer)@, max_chars as nat),
{
    let cs = crate::text::chars_of(buffer.as_str());
    if cs.len() <= max_chars {
        return;
    }
    let tail = crate::text::tail_chars_exec(cs.as_slice(), max_chars);
    *buffer = crate::text::string_of(tail.as_slice());
}

/// A flag as the job store keeps it: 1 for true, 0 for false.
pub fn bool_to_i64(value: bool) -> (r: i64)
    ensures
        r == if value { 1i64 } else { 0i64 },
{
    if value {
        1
    } else {
        0
    }
}

/// What a `scheduler_job_create` call is refused for, if anything: a job in
/// the heartbeat session, or a schedule without its field (`schedule_at`
/// for `at`, `every_ms` for `every`, `cron_expr` for `cron`).
pub open spec fn job_create_error(input: SchedulerJobCreateInput) -> Option<Seq<char>> {
    if input.session_target == SchedulerSessionTarget::Heartbeat {
        Some(heartbeat_target_message())
    } else if input.schedule_kind == SchedulerScheduleKind::At && input.schedule_at is None {
        Some("'schedule_at' is required for schedule_kind=at"@)
    } else if input.schedule_kind == SchedulerScheduleKind::Every && input.every_ms is None {
        Some("'every_ms' is required for schedule_kind=every"@)
    } else if input.schedule_kind == SchedulerScheduleKind::Cron && input.cron_expr is None {
        Some("'cron_expr' is required for schedule_kind=cron"@)
    } else {
        None
    }
}

/// Checks a `scheduler_job_create` call (see `job_create_error`).
pub fn validate_scheduler_job_create(input: &SchedulerJobCreateInput) -> (r: Result<(), String>)
    ensures
        match job_create_error(*input) {
            Some(e) => r matches Err(m) && m@ == e,
            None => r is Ok,
        },
{
    if let Err(e) = validate_scheduler_session_target(input.session_target) {
        return Err(e);
    }
    match input.schedule_kind {
        SchedulerScheduleKind::At => {
            if input.schedule_at.is_none() {
                return Err(owned("'schedule_at' is required for schedule_kind=at"));
            }
        },
        SchedulerScheduleKind::Every => {
            if input.every_ms.is_none() {
                return Err(owned("'every_ms' is required for schedule_kind=every"));
            }
        },
        SchedulerScheduleKind::Cron => {
            if input.cron_expr.is_none() {
                return Err(owned("'cron_expr' is required for schedule_kind=cron"));
            }
        },
    }
    Ok(())
}

/// Checks a `scheduler_job_update` patch: it may not move the job into the
/// heartbeat session.
pub fn validate_scheduler_job_patch(patch: &SchedulerJobPatchInput) -> (r: Result<(), String>)
    ensures
        patch.session_target == Some(SchedulerSessionTarget::Heartbeat) ==> (r matches Err(e) && e@ == heartbeat_target_message()),
        patch.session_target != Some(SchedulerSessionTarget::Heartbeat) ==> r is Ok,
{
    match patch.session_target {
        Some(t) => validate_scheduler_session_target(t),
        None => Ok(()),
    }
}

/// The job a scheduler tool names: `job_id`, else `jobId`, each trimmed
/// and kept unless blank; one is required.
pub fn scheduler_job_id_argument(job_id: Option<&str>, job_id_camel: Option<&str>) -> (r: Result<String, String>)
    ensures
        match crate::todo::str_opt_view(job_id) {
            Some(v) if crate::text::trim_seq(v).len() > 0 => r matches Ok(s) && s@ == crate::text::trim_seq(v),
            _ => match crate::todo::str_opt_view(job_id_camel) {
                Some(v) if crate::text::trim_seq(v).len() > 0 => r matches Ok(s) && s@ == crate::text::trim_seq(v),
                _ => r matches Err(e) && e@ == "'job_id' is required"@,
            },
        },
{
    if let Some(v) = crate::todo::read_optional_string_argument(job_id) {
        return Ok(v);
    }
    if let Some(v) = crate::todo::read_optional_string_argument(job_id_camel) {
        return Ok(v);
    }
    Err(owned("'job_id' is required"))
}

/// How many runs `scheduler_runs_list` returns: the `limit` argument (50
/// when absent) within 1..=1000.
pub fn scheduler_runs_limit(raw: Option<i64>) -> (r: i64)
    ensures
        r == (match raw {
            Some(v) => if v < 1 { 1 } else if v > 1000 { 1000 } else { v as int },
            None => 50,
        }),
{
    let v = match raw {
        Some(v) => v,
        None => 50,
    };
    if v < 1 {
        1
    } else if v > 1000 {
        1000
    } else {
        v
    }
}

/// How many conversations `sessions_list` returns: the number asked (30
/// when none is given) held between 1 and 200.
pub fn sessions_list_limit(requested: Option<u64>) -> (r: u64)
    ensures
        r == clamped(number_or(requested, 30), 1, 200),
{
    clamp_u64(match requested { Some(v) => v, None => 30 }, 1, 200)
}

/// How many messages `sessions_history` returns: the number asked (100
/// when none is given) held between 1 and 500.
pub fn sessions_history_limit(requested: Option<u64>) -> (r: u64)
    ensures
        r == clamped(number_or(requested, 100), 1, 500),
{
    clamp_u64(match requested { Some(v) => v, None => 100 }, 1, 500)
}

/// How many results `skill_discover` asks for: the number asked (8 when
/// none is given) held between 1 and 20.
pub fn skill_discover_limit(requested: Option<u64>) -> (r: u64)
    ensures
        r == clamped(number_or(requested, 8), 1, 20),
{
    clamp_u64(match requested { Some(v) => v, None => 8 }, 1, 20)
}

/// The model `sessions_send` answers with: the one asked for, else the
/// conversation's; an error when the conversation does not exist (it has
/// no model).
pub fn sessions_send_model(conversation_id: &str, requested: &Option<String>, conversation_model: Option<String>) -> (r: Result<String, String>)
    ensures
        match conversation_model {
            None => r matches Err(e) && e@ == "Conversation not found: "@ + conversation_id@,
            Some(m) => r matches Ok(v) && v@ == (match trimmed_present(*requested) {
                Some(t) => t,
                None => m@,
            }),
        },
{
    match conversation_model {
        None => {
            let mut out = chars_of("Conversation not found: ");
            let c = chars_of(conversation_id);
            push_all(&mut out, c.as_slice());
            Err(string_of(out.as_slice()))
        },
        Some(m) => match trim_present(requested) {
            Some(t) => Ok(t),
            None => Ok(m),
        },
    }
}

/// A spawned session can only run the assistant on a first message.
pub fn check_spawn_content(content: &Option<String>, run_assistant: bool) -> (r: Result<(), String>)
    ensures
        match r {
            Ok(()) => !run_assistant || trimmed_present(*content) is Some,
            Err(e) => run_assistant && trimmed_present(*content) is None
                && e@ == "'content' is required when 'run_assistant' is true"@,
        },
{
    if run_assistant && trim_present(content).is_none() {
        return Err(owned("'content' is required when 'run_assistant' is true"));
    }
    Ok(())
}

/// Whether two names are equal ignoring ASCII case.
pub fn eq_ignore_ascii_case(a: &str, b: &str) -> (r: bool)
    ensures
        r == (lower_seq(a@) == lower_seq(b@)),
{
    let la = lower_chars(chars_of(a).as_slice());
    let lb = lower_chars(chars_of(b).as_slice());
    chars_eq(la.as_slice(), lb.as_slice())
}

/// Whether the `i`th skill is the first whose name equals `name` ignoring
/// ASCII case.
pub open spec fn first_skill_named(skills: Seq<Skill>, name: Seq<char>, i: int) -> bool {
    &&& 0 <= i < skills.len()
    &&& lower_seq(skills[i].name@) == lower_seq(name)
    &&& forall|k: int| 0 <= k < i ==> lower_seq(#[trigger] skills[k].name@) != lower_seq(name)
}

/// The position of the first skill whose name matches, ignoring ASCII case.
pub fn find_skill_named(skills: &Vec<Skill>, name: &str) -> (r: Option<usize>)
    ensures
        match r {
            Some(i) => first_skill_named(skills@, name@, i as int),
            None => forall|k: int| 0 <= k < skills@.len() ==> lower_seq(#[trigger] skills@[k].name@) != lower_seq(name@),
        },
{
    let mut i: usize = 0;
    while i < skills.len()
        invariant
            i <= skills@.len(),
            forall|k: int| 0 <= k < i ==> lower_seq(#[trigger] skills@[k].name@) != lower_seq(name@),
        decreases skills@.len() - i,
    {
        if eq_ignore_ascii_case(skills[i].name.as_str(), name) {
            return Some(i);
        }
        i = i + 1;
    }
    None
}

/// The skill `skill_execute` runs: the id given, else the first installed
/// skill whose name matches the name given (ignoring ASCII case).
pub fn resolve_skill_id(skill_id: &Option<String>, skill_name: &Option<String>, skills: &Vec<Skill>) -> (r: Result<String, String>)
    ensures
        match trimmed_present(*skill_id) {
            Some(id) => r matches Ok(v) && v@ == id,
            None => match trimmed_present(*skill_name) {
                None => r matches Err(e) && e@ == "Either 'skill_id' or 'skill_name' is required"@,
                Some(name) => match r {
                    Ok(v) => exists|i: int| #[trigger] first_skill_named(skills@, name, i) && v@ == skills@[i].id@,
                    Err(e) => e@ == "Skill not found by name: "@ + name
                        && forall|k: int| 0 <= k < skills@.len() ==> lower_seq(#[trigger] skills@[k].name@) != lower_seq(name),
                },
            },
        },
{
    if let Some(id) = trim_present(skill_id) {
        return Ok(id);
    }
    let name = match trim_present(skill_name) {
        Some(n) => n,
        None => return Err(owned("Either 'skill_id' or 'skill_name' is required")),
    };
    match find_skill_named(skills, name.as_str()) {
        Some(i) => {
            let id = owned(skills[i].id.as_str());
            assert(first_skill_named(skills@, name@, i as int) && id@ == skills@[i as int].id@);
            proof {
                let nm = trimmed_present(*skill_name)->0;
                assert(nm == name@);
                assert(first_skill_named(skills@, nm, i as int));
            }
            Ok(id)
        },
        None => {
            let mut out = chars_of("Skill not found by name: ");
            let n = chars_of(name.as_str());
            push_all(&mut out, n.as_slice());
            let e = string_of(out.as_slice());
            Err(e)
        },
    }
}

} // verus!
