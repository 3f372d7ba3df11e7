//! The built-in tools: their names, the tool each name runs, and the
//! checks of a `core_batch` call before its tools run.

use vstd::prelude::*;
use crate::text::{chars_of, string_of, owned, push_all, push_decimal, decimal_seq, str_eq, trimmed_present, trim_present};
use crate::permissions::{is_batch_safe_tool, should_auto_allow_batch_tool};

verus! {

/// What a tool call runs.
#[derive(Debug, Clone)]
pub enum RuntimeTool {
    Mcp { server_name: String, tool_name: String },
    WorkspaceListDirectory,
    WorkspaceReadFile,
    WorkspaceWriteFile,
    WorkspaceEditFile,
    WorkspaceGlob,
    WorkspaceGrep,
    WorkspaceCodeSearch,
    WorkspaceLspSymbols,
    WorkspaceApplyPatch,
    WorkspaceRunCommand,
    WorkspaceParsePdfMarkdown,
    WorkspaceProcessStart,
    WorkspaceProcessList,
    WorkspaceProcessRead,
    WorkspaceProcessTerminate,
    SkillDiscover,
    SkillInstallFromRepo,
    SkillList,
    SkillExecute,
    CoreBatch,
    CoreTask,
    TodoRead,
    TodoWrite,
    WebFetch,
    WebSearch,
    Browser,
    BrowserNavigate,
    Desktop,
    ImageProbe,
    ImageUnderstand,
    SessionsList,
    SessionsHistory,
    SessionsSend,
    SessionsSpawn,
    AgentsList,
    SchedulerJobsList,
    SchedulerJobCreate,
    SchedulerJobUpdate,
    SchedulerJobDelete,
    SchedulerJobRun,
    SchedulerRunsList,
}

/// The name the model calls a built-in tool by.
pub open spec fn builtin_tool_name(t: RuntimeTool) -> Option<Seq<char>> {
    match t {
        RuntimeTool::Mcp { .. } => None,
        RuntimeTool::WorkspaceListDirectory => Some("workspace_list_directory"@),
        RuntimeTool::WorkspaceReadFile => Some("workspace_read_file"@),
        RuntimeTool::WorkspaceWriteFile => Some("workspace_write_file"@),
        RuntimeTool::WorkspaceEditFile => Some("workspace_edit_file"@),
        RuntimeTool::WorkspaceGlob => Some("workspace_search_glob"@),
        RuntimeTool::WorkspaceGrep => Some("workspace_search_grep"@),
        RuntimeTool::WorkspaceCodeSearch => Some("workspace_search_code"@),
        RuntimeTool::WorkspaceLspSymbols => Some("workspace_lsp_symbols"@),
        RuntimeTool::WorkspaceApplyPatch => Some("workspace_apply_patch"@),
        RuntimeTool::WorkspaceRunCommand => Some("bash"@),
        RuntimeTool::WorkspaceParsePdfMarkdown => Some("workspace_parse_pdf_markdown"@),
        RuntimeTool::WorkspaceProcessStart => Some("workspace_process_start"@),
        RuntimeTool::WorkspaceProcessList => Some("workspace_process_list"@),
        RuntimeTool::WorkspaceProcessRead => Some("workspace_process_read"@),
        RuntimeTool::WorkspaceProcessTerminate => Some("workspace_process_terminate"@),
        RuntimeTool::SkillDiscover => Some("skill_discover"@),
        RuntimeTool::SkillInstallFromRepo => Some("skill_install_from_repo"@),
        RuntimeTool::SkillList => Some("skill_list"@),
        RuntimeTool::SkillExecute => Some("skill_execute"@),
        RuntimeTool::CoreBatch => Some("core_batch"@),
        RuntimeTool::CoreTask => Some("core_task"@),
        RuntimeTool::TodoRead => Some("todo_read"@),
        RuntimeTool::TodoWrite => Some("todo_write"@),
        RuntimeTool::WebFetch => Some("web_fetch"@),
        RuntimeTool::WebSearch => Some("web_search"@),
        RuntimeTool::Browser => Some("browser"@),
        RuntimeTool::BrowserNavigate => Some("browser_navigate"@),
        RuntimeTool::Desktop => Some("desktop"@),
        RuntimeTool::ImageProbe => Some("image_probe"@),
        RuntimeTool::ImageUnderstand => Some("image_understand"@),
        RuntimeTool::SessionsList => Some("sessions_list"@),
        RuntimeTool::SessionsHistory => Some("sessions_history"@),
        RuntimeTool::SessionsSend => Some("sessions_send"@),
        RuntimeTool::SessionsSpawn => Some("sessions_spawn"@),
        RuntimeTool::AgentsList => Some("agents_list"@),
        RuntimeTool::SchedulerJobsList => Some("scheduler_jobs_list"@),
        RuntimeTool::SchedulerJobCreate => Some("scheduler_job_create"@),
        RuntimeTool::SchedulerJobUpdate => Some("scheduler_job_update"@),
        RuntimeTool::SchedulerJobDelete => Some("scheduler_job_delete"@),
        RuntimeTool::SchedulerJobRun => Some("scheduler_job_run"@),
        RuntimeTool::SchedulerRunsList => Some("scheduler_runs_list"@),
    }
}

/// The built-in tool a name calls, if any (looked up by the name's
/// length, then the name).
pub open spec fn tool_for_name(n: Seq<char>) -> Option<RuntimeTool> {
    if n.len() == 4 {
        if n == "bash"@ {
            Some(RuntimeTool::WorkspaceRunCommand)
        } else {
            None
        }
    } else if n.len() == 7 {
        if n == "browser"@ {
            Some(RuntimeTool::Browser)
        } else if n == "desktop"@ {
            Some(RuntimeTool::Desktop)
        } else {
            None
        }
    } else if n.len() == 9 {
        if n == "core_task"@ {
            Some(RuntimeTool::CoreTask)
        } else if n == "todo_read"@ {
            Some(RuntimeTool::TodoRead)
        } else if n == "web_fetch"@ {
            Some(RuntimeTool::WebFetch)
        } else {
            None
        }
    } else if n.len() == 10 {
        if n == "skill_list"@ {
            Some(RuntimeTool::SkillList)
        } else if n == "core_batch"@ {
            Some(RuntimeTool::CoreBatch)
        } else if n == "todo_write"@ {
            Some(RuntimeTool::TodoWrite)
        } else if n == "web_search"@ {
            Some(RuntimeTool::WebSearch)
        } else {
            None
        }
    } else if n.len() == 11 {
        if n == "image_probe"@ {
            Some(RuntimeTool::ImageProbe)
        } else if n == "agents_list"@ {
            Some(RuntimeTool::AgentsList)
        } else {
            None
        }
    } else if n.len() == 13 {
        if n == "skill_execute"@ {
            Some(RuntimeTool::SkillExecute)
        } else if n == "sessions_list"@ {
            Some(RuntimeTool::SessionsList)
        } else if n == "sessions_send"@ {
            Some(RuntimeTool::SessionsSend)
        } else {
            None
        }
    } else if n.len() == 14 {
        if n == "skill_discover"@ {
            Some(RuntimeTool::SkillDiscover)
        } else if n == "sessions_spawn"@ {
            Some(RuntimeTool::SessionsSpawn)
        } else {
            None
        }
    } else if n.len() == 16 {
        if n == "browser_navigate"@ {
            Some(RuntimeTool::BrowserNavigate)
        } else if n == "image_understand"@ {
            Some(RuntimeTool::ImageUnderstand)
        } else if n == "sessions_history"@ {
            Some(RuntimeTool::SessionsHistory)
        } else {
            None
        }
    } else if n.len() == 17 {
        if n == "scheduler_job_run"@ {
            Some(RuntimeTool::SchedulerJobRun)
        } else {
            None
        }
    } else if n.len() == 19 {
        if n == "workspace_read_file"@ {
            Some(RuntimeTool::WorkspaceReadFile)
        } else if n == "workspace_edit_file"@ {
            Some(RuntimeTool::WorkspaceEditFile)
        } else if n == "scheduler_jobs_list"@ {
            Some(RuntimeTool::SchedulerJobsList)
        } else if n == "scheduler_runs_list"@ {
            Some(RuntimeTool::SchedulerRunsList)
        } else {
            None
        }
    } else if n.len() == 20 {
        if n == "workspace_write_file"@ {
            Some(RuntimeTool::WorkspaceWriteFile)
        } else if n == "scheduler_job_create"@ {
            Some(RuntimeTool::SchedulerJobCreate)
        } else if n == "scheduler_job_update"@ {
            Some(RuntimeTool::SchedulerJobUpdate)
        } else if n == "scheduler_job_delete"@ {
            Some(RuntimeTool::SchedulerJobDelete)
        } else {
            None
        }
    } else if n.len() == 21 {
        if n == "workspace_search_glob"@ {
            Some(RuntimeTool::WorkspaceGlob)
        } else if n == "workspace_search_grep"@ {
            Some(RuntimeTool::WorkspaceGrep)
        } else if n == "workspace_search_code"@ {
            Some(RuntimeTool::WorkspaceCodeSearch)
        } else if n == "workspace_lsp_symbols"@ {
            Some(RuntimeTool::WorkspaceLspSymbols)
        } else if n == "workspace_apply_patch"@ {
            Some(RuntimeTool::WorkspaceApplyPatch)
        } else {
            None
        }
    } else if n.len() == 22 {
        if n == "workspace_process_list"@ {
            Some(RuntimeTool::WorkspaceProcessList)
        } else if n == "workspace_process_read"@ {
            Some(RuntimeTool::WorkspaceProcessRead)
        } else {
            None
        }
    } else if n.len() == 23 {
        if n == "workspace_process_start"@ {
            Some(RuntimeTool::WorkspaceProcessStart)
        } else if n == "skill_install_from_repo"@ {
            Some(RuntimeTool::SkillInstallFromRepo)
        } else {
            None
        }
    } else if n.len() == 24 {
        if n == "workspace_list_directory"@ {
            Some(RuntimeTool::WorkspaceListDirectory)
        } else {
            None
        }
    } else if n.len() == 27 {
        if n == "workspace_process_terminate"@ {
            Some(RuntimeTool::WorkspaceProcessTerminate)
        } else {
            None
        }
    } else if n.len() == 28 {
        if n == "workspace_parse_pdf_markdown"@ {
            Some(RuntimeTool::WorkspaceParsePdfMarkdown)
        } else {
            None
        }
    } else {
        None
    }
}

/// The built-in tool a name calls (see `tool_for_name`).
pub fn builtin_tool_named(name: &str) -> (r: Option<RuntimeTool>)
    ensures
        r == tool_for_name(name@),
{
    let len = chars_of(name).len();
    if len == 4 {
        if str_eq(name, "bash") {
            Some(RuntimeTool::WorkspaceRunCommand)
        } else {
            None
        }
    } else if len == 7 {
        if str_eq(name, "browser") {
            Some(RuntimeTool::Browser)
        } else if str_eq(name, "desktop") {
            Some(RuntimeTool::Desktop)
        } else {
            None
        }
    } else if len == 9 {
        if str_eq(name, "core_task") {
            Some(RuntimeTool::CoreTask)
        } else if str_eq(name, "todo_read") {
            Some(RuntimeTool::TodoRead)
        } else if str_eq(name, "web_fetch") {
            Some(RuntimeTool::WebFetch)
        } else {
            None
        }
    } else if len == 10 {
        if str_eq(name, "skill_list") {
            Some(RuntimeTool::SkillList)
        } else if str_eq(name, "core_batch") {
            Some(RuntimeTool::CoreBatch)
        } else if str_eq(name, "todo_write") {
            Some(RuntimeTool::TodoWrite)
        } else if str_eq(name, "web_search") {
            Some(RuntimeTool::WebSearch)
        } else {
            None
        }
    } else if len == 11 {
        if str_eq(name, "image_probe") {
            Some(RuntimeTool::ImageProbe)
        } else if str_eq(name, "agents_list") {
            Some(RuntimeTool::AgentsList)
        } else {
            None
        }
    } else if len == 13 {
        if str_eq(name, "skill_execute") {
            Some(RuntimeTool::SkillExecute)
        } else if str_eq(name, "sessions_list") {
            Some(RuntimeTool::SessionsList)
        } else if str_eq(name, "sessions_send") {
            Some(RuntimeTool::SessionsSend)
        } else {
            None
        }
    } else if len == 14 {
        if str_eq(name, "skill_discover") {
            Some(RuntimeTool::SkillDiscover)
        } else if str_eq(name, "sessions_spawn") {
            Some(RuntimeTool::SessionsSpawn)
        } else {
            None
        }
    } else if len == 16 {
        if str_eq(name, "browser_navigate") {
            Some(RuntimeTool::BrowserNavigate)
        } else if str_eq(name, "image_understand") {
            Some(RuntimeTool::ImageUnderstand)
        } else if str_eq(name, "sessions_history") {
            Some(RuntimeTool::SessionsHistory)
        } else {
            None
        }
    } else if len == 17 {
        if str_eq(name, "scheduler_job_run") {
            Some(RuntimeTool::SchedulerJobRun)
        } else {
            None
        }
    } else if len == 19 {
        if str_eq(name, "workspace_read_file") {
            Some(RuntimeTool::WorkspaceReadFile)
        } else if str_eq(name, "workspace_edit_file") {
            Some(RuntimeTool::WorkspaceEditFile)
        } else if str_eq(name, "scheduler_jobs_list") {
            Some(RuntimeTool::SchedulerJobsList)
        } else if str_eq(name, "scheduler_runs_list") {
            Some(RuntimeTool::SchedulerRunsList)
        } else {
            None
        }
    } else if len == 20 {
        if str_eq(name, "workspace_write_file") {
            Some(RuntimeTool::WorkspaceWriteFile)
        } else if str_eq(name, "scheduler_job_create") {
            Some(RuntimeTool::SchedulerJobCreate)
        } else if str_eq(name, "scheduler_job_update") {
            Some(RuntimeTool::SchedulerJobUpdate)
        } else if str_eq(name, "scheduler_job_delete") {
            Some(RuntimeTool::SchedulerJobDelete)
        } else {
            None
        }
    } else if len == 21 {
        if str_eq(name, "workspace_search_glob") {
            Some(RuntimeTool::WorkspaceGlob)
        } else if str_eq(name, "workspace_search_grep") {
            Some(RuntimeTool::WorkspaceGrep)
        } else if str_eq(name, "workspace_search_code") {
            Some(RuntimeTool::WorkspaceCodeSearch)
        } else if str_eq(name, "workspace_lsp_symbols") {
            Some(RuntimeTool::WorkspaceLspSymbols)
        } else if str_eq(name, "workspace_apply_patch") {
            Some(RuntimeTool::WorkspaceApplyPatch)
        } else {
            None
        }
    } else if len == 22 {
        if str_eq(name, "workspace_process_list") {
            Some(RuntimeTool::WorkspaceProcessList)
        } else if str_eq(name, "workspace_process_read") {
            Some(RuntimeTool::WorkspaceProcessRead)
        } else {
            None
        }
    } else if len == 23 {
        if str_eq(name, "workspace_process_start") {
            Some(RuntimeTool::WorkspaceProcessStart)
        } else if str_eq(name, "skill_install_from_repo") {
            Some(RuntimeTool::SkillInstallFromRepo)
        } else {
            None
        }
    } else if len == 24 {
        if str_eq(name, "workspace_list_directory") {
            Some(RuntimeTool::WorkspaceListDirectory)
        } else {
            None
        }
    } else if len == 27 {
        if str_eq(name, "workspace_process_terminate") {
            Some(RuntimeTool::WorkspaceProcessTerminate)
        } else {
            None
        }
    } else if len == 28 {
        if str_eq(name, "workspace_parse_pdf_markdown") {
            Some(RuntimeTool::WorkspaceParsePdfMarkdown)
        } else {
            None
        }
    } else {
        None
    }
}

/// Each built-in tool's name calls that tool.
pub proof fn lemma_tool_names_round_trip(t: RuntimeTool)
    ensures
        match builtin_tool_name(t) {
            Some(n) => tool_for_name(n) == Some(t),
            None => true,
        },
{
    match t {
        RuntimeTool::Mcp { .. } => {},
        RuntimeTool::WorkspaceListDirectory => {
            reveal_strlit("workspace_list_directory");
        },
        RuntimeTool::WorkspaceReadFile => {
            reveal_strlit("workspace_read_file");
        },
        RuntimeTool::WorkspaceWriteFile => {
            reveal_strlit("workspace_write_file");
        },
        RuntimeTool::WorkspaceEditFile => {
            reveal_strlit("workspace_edit_file");
            reveal_strlit("workspace_read_file");
            assert("workspace_edit_file"@[10] != "workspace_read_file"@[10]);
        },
        RuntimeTool::WorkspaceGlob => {
            reveal_strlit("workspace_search_glob");
        },
        RuntimeTool::WorkspaceGrep => {
            reveal_strlit("workspace_search_grep");
            reveal_strlit("workspace_search_glob");
            assert("workspace_search_grep"@[18] != "workspace_search_glob"@[18]);
        },
        RuntimeTool::WorkspaceCodeSearch => {
            reveal_strlit("workspace_search_code");
            reveal_strlit("workspace_search_glob");
            assert("workspace_search_code"@[17] != "workspace_search_glob"@[17]);
            reveal_strlit("workspace_search_grep");
            assert("workspace_search_code"@[17] != "workspace_search_grep"@[17]);
        },
        RuntimeTool::WorkspaceLspSymbols => {
            reveal_strlit("workspace_lsp_symbols");
            reveal_strlit("workspace_search_glob");
            assert("workspace_lsp_symbols"@[10] != "workspace_search_glob"@[10]);
            reveal_strlit("workspace_search_grep");
            assert("workspace_lsp_symbols"@[10] != "workspace_search_grep"@[10]);
            reveal_strlit("workspace_search_code");
            assert("workspace_lsp_symbols"@[10] != "workspace_search_code"@[10]);
        },
        RuntimeTool::WorkspaceApplyPatch => {
            reveal_strlit("workspace_apply_patch");
            reveal_strlit("workspace_search_glob");
            assert("workspace_apply_patch"@[10] != "workspace_search_glob"@[10]);
            reveal_strlit("workspace_search_grep");
            assert("workspace_apply_patch"@[10] != "workspace_search_grep"@[10]);
            reveal_strlit("workspace_search_code");
            assert("workspace_apply_patch"@[10] != "workspace_search_code"@[10]);
            reveal_strlit("workspace_lsp_symbols");
            assert("workspace_apply_patch"@[10] != "workspace_lsp_symbols"@[10]);
        },
        RuntimeTool::WorkspaceRunCommand => {
            reveal_strlit("bash");
        },
        RuntimeTool::WorkspaceParsePdfMarkdown => {
            reveal_strlit("workspace_parse_pdf_markdown");
        },
        RuntimeTool::WorkspaceProcessStart => {
            reveal_strlit("workspace_process_start");
        },
        RuntimeTool::WorkspaceProcessList => {
            reveal_strlit("workspace_process_list");
        },
        RuntimeTool::WorkspaceProcessRead => {
            reveal_strlit("workspace_process_read");
            reveal_strlit("workspace_process_list");
            assert("workspace_process_read"@[18] != "workspace_process_list"@[18]);
        },
        RuntimeTool::WorkspaceProcessTerminate => {
            reveal_strlit("workspace_process_terminate");
        },
        RuntimeTool::SkillDiscover => {
            reveal_strlit("skill_discover");
        },
        RuntimeTool::SkillInstallFromRepo => {
            reveal_strlit("skill_install_from_repo");
            reveal_strlit("workspace_process_start");
            assert("skill_install_from_repo"@[0] != "workspace_process_start"@[0]);
        },
        RuntimeTool::SkillList => {
            reveal_strlit("skill_list");
        },
        RuntimeTool::SkillExecute => {
            reveal_strlit("skill_execute");
        },
        RuntimeTool::CoreBatch => {
            reveal_strlit("core_batch");
            reveal_strlit("skill_list");
            assert("core_batch"@[0] != "skill_list"@[0]);
        },
        RuntimeTool::CoreTask => {
            reveal_strlit("core_task");
        },
        RuntimeTool::TodoRead => {
            reveal_strlit("todo_read");
            reveal_strlit("core_task");
            assert("todo_read"@[0] != "core_task"@[0]);
        },
        RuntimeTool::TodoWrite => {
            reveal_strlit("todo_write");
            reveal_strlit("skill_list");
            assert("todo_write"@[0] != "skill_list"@[0]);
            reveal_strlit("core_batch");
            assert("todo_write"@[0] != "core_batch"@[0]);
        },
        RuntimeTool::WebFetch => {
            reveal_strlit("web_fetch");
            reveal_strlit("core_task");
            assert("web_fetch"@[0] != "core_task"@[0]);
            reveal_strlit("todo_read");
            assert("web_fetch"@[0] != "todo_read"@[0]);
        },
        RuntimeTool::WebSearch => {
            reveal_strlit("web_search");
            reveal_strlit("skill_list");
            assert("web_search"@[0] != "skill_list"@[0]);
            reveal_strlit("core_batch");
            assert("web_search"@[0] != "core_batch"@[0]);
            reveal_strlit("todo_write");
            assert("web_search"@[0] != "todo_write"@[0]);
        },
        RuntimeTool::Browser => {
            reveal_strlit("browser");
        },
        RuntimeTool::BrowserNavigate => {
            reveal_strlit("browser_navigate");
        },
        RuntimeTool::Desktop => {
            reveal_strlit("desktop");
            reveal_strlit("browser");
            assert("desktop"@[0] != "browser"@[0]);
        },
        RuntimeTool::ImageProbe => {
            reveal_strlit("image_probe");
        },
        RuntimeTool::ImageUnderstand => {
            reveal_strlit("image_understand");
            reveal_strlit("browser_navigate");
            assert("image_understand"@[0] != "browser_navigate"@[0]);
        },
        RuntimeTool::SessionsList => {
            reveal_strlit("sessions_list");
            reveal_strlit("skill_execute");
            assert("sessions_list"@[1] != "skill_execute"@[1]);
        },
        RuntimeTool::SessionsHistory => {
            reveal_strlit("sessions_history");
            reveal_strlit("browser_navigate");
            assert("sessions_history"@[0] != "browser_navigate"@[0]);
            reveal_strlit("image_understand");
            assert("sessions_history"@[0] != "image_understand"@[0]);
        },
        RuntimeTool::SessionsSend => {
            reveal_strlit("sessions_send");
            reveal_strlit("skill_execute");
            assert("sessions_send"@[1] != "skill_execute"@[1]);
            reveal_strlit("sessions_list");
            assert("sessions_send"@[9] != "sessions_list"@[9]);
        },
        RuntimeTool::SessionsSpawn => {
            reveal_strlit("sessions_spawn");
            reveal_strlit("skill_discover");
            assert("sessions_spawn"@[1] != "skill_discover"@[1]);
        },
        RuntimeTool::AgentsList => {
            reveal_strlit("agents_list");
            reveal_strlit("image_probe");
            assert("agents_list"@[0] != "image_probe"@[0]);
        },
        RuntimeTool::SchedulerJobsList => {
            reveal_strlit("scheduler_jobs_list");
            reveal_strlit("workspace_read_file");
            assert("scheduler_jobs_list"@[0] != "workspace_read_file"@[0]);
            reveal_strlit("workspace_edit_file");
            assert("scheduler_jobs_list"@[0] != "workspace_edit_file"@[0]);
        },
        RuntimeTool::SchedulerJobCreate => {
            reveal_strlit("scheduler_job_create");
            reveal_strlit("workspace_write_file");
            assert("scheduler_job_create"@[0] != "workspace_write_file"@[0]);
        },
        RuntimeTool::SchedulerJobUpdate => {
            reveal_strlit("scheduler_job_update");
            reveal_strlit("workspace_write_file");
            assert("scheduler_job_update"@[0] != "workspace_write_file"@[0]);
            reveal_strlit("scheduler_job_create");
            assert("scheduler_job_update"@[14] != "scheduler_job_create"@[14]);
        },
        RuntimeTool::SchedulerJobDelete => {
            reveal_strlit("scheduler_job_delete");
            reveal_strlit("workspace_write_file");
            assert("scheduler_job_delete"@[0] != "workspace_write_file"@[0]);
            reveal_strlit("scheduler_job_create");
            assert("scheduler_job_delete"@[14] != "scheduler_job_create"@[14]);
            reveal_strlit("scheduler_job_update");
            assert("scheduler_job_delete"@[14] != "scheduler_job_update"@[14]);
        },
        RuntimeTool::SchedulerJobRun => {
            reveal_strlit("scheduler_job_run");
        },
        RuntimeTool::SchedulerRunsList => {
            reveal_strlit("scheduler_runs_list");
            reveal_strlit("workspace_read_file");
            assert("scheduler_runs_list"@[0] != "workspace_read_file"@[0]);
            reveal_strlit("workspace_edit_file");
            assert("scheduler_runs_list"@[0] != "workspace_edit_file"@[0]);
            reveal_strlit("scheduler_jobs_list");
            assert("scheduler_runs_list"@[10] != "scheduler_jobs_list"@[10]);
        },
    }
}

/// A call inside `core_batch`: its `tool` (else `name`) when that is a
/// string, and whether its `arguments` are an object (absent ones count
/// as an empty object).
#[derive(Debug, Clone)]
pub struct BatchCall {
    pub tool: Option<String>,
    pub arguments_is_object: bool,
}

/// What happens to a call inside `core_batch`.
#[derive(Debug, Clone)]
pub enum BatchStep {
    /// The tool (trimmed) runs.
    Run { tool: String },
    /// The tool may not run in a batch; the call reports so.
    NotAllowed { tool: String },
}

pub open spec fn tool_required_message(index: nat) -> Seq<char> {
    "tool_calls["@ + decimal_seq(index) + "].tool is required"@
}

pub open spec fn arguments_object_message(index: nat) -> Seq<char> {
    "tool_calls["@ + decimal_seq(index) + "].arguments must be an object"@
}

fn indexed_message(index: usize, tail: &str) -> (r: String)
    ensures
        r@ == "tool_calls["@ + decimal_seq(index as nat) + tail@,
{
    let mut out = chars_of("tool_calls[");
    push_decimal(&mut out, index as u64);
    let t = chars_of(tail);
    push_all(&mut out, t.as_slice());
    string_of(out.as_slice())
}

/// Checks call `index` of a `core_batch`: its tool is required and its
/// arguments must be an object (either failure stops the batch); a tool
/// that may not run without asking is reported, not run.
pub fn check_batch_call(index: usize, call: &BatchCall) -> (r: Result<BatchStep, String>)
    ensures
        match trimmed_present(call.tool) {
            None => r matches Err(e) && e@ == tool_required_message(index as nat),
            Some(t) => if !call.arguments_is_object {
                r matches Err(e) && e@ == arguments_object_message(index as nat)
            } else if is_batch_safe_tool(t) {
                r matches Ok(BatchStep::Run { tool }) && tool@ == t
            } else {
                r matches Ok(BatchStep::NotAllowed { tool }) && tool@ == t
            },
        },
{
    let tool = match trim_present(&call.tool) {
        Some(t) => t,
        None => {
            return Err(indexed_message(index, "].tool is required"));
        },
    };
    if !call.arguments_is_object {
        return Err(indexed_message(index, "].arguments must be an object"));
    }
    if should_auto_allow_batch_tool(tool.as_str()) {
        Ok(BatchStep::Run { tool })
    } else {
        Ok(BatchStep::NotAllowed { tool })
    }
}

/// The tools a batch can run: those that may run without asking, and the
/// browser ones.
pub open spec fn batch_runnable(name: Seq<char>) -> bool {
    is_batch_safe_tool(name) || name == "browser"@ || name == "browser_navigate"@
}

/// The tool a batch runs for a name, or the error for a tool it cannot
/// run.
pub fn batch_tool(name: &str) -> (r: Result<RuntimeTool, String>)
    ensures
        batch_runnable(name@) ==> (r matches Ok(t) && tool_for_name(name@) == Some(t)),
        !batch_runnable(name@) ==> (r matches Err(e) && e@ == "Unsupported batch tool: "@ + name@),
{
    let runnable = should_auto_allow_batch_tool(name) || str_eq(name, "browser") || str_eq(name, "browser_navigate");
    if runnable {
        match builtin_tool_named(name) {
            Some(t) => {
                return Ok(t);
            },
            None => {
                proof {
                    lemma_batch_tools_are_builtin(name@);
                }
            },
        }
    }
    let mut msg = chars_of("Unsupported batch tool: ");
    let n = chars_of(name);
    push_all(&mut msg, n.as_slice());
    Err(string_of(msg.as_slice()))
}

proof fn lemma_batch_tools_are_builtin(name: Seq<char>)
    requires
        batch_runnable(name),
    ensures
        tool_for_name(name) is Some,
{
    reveal_strlit("workspace_list_directory");
    reveal_strlit("workspace_read_file");
    reveal_strlit("workspace_parse_pdf_markdown");
    reveal_strlit("workspace_search_glob");
    reveal_strlit("workspace_search_grep");
    reveal_strlit("workspace_search_code");
    reveal_strlit("workspace_lsp_symbols");
    reveal_strlit("todo_read");
    reveal_strlit("todo_write");
    reveal_strlit("web_fetch");
    reveal_strlit("web_search");
    reveal_strlit("image_probe");
    reveal_strlit("image_understand");
    reveal_strlit("sessions_list");
    reveal_strlit("sessions_history");
    reveal_strlit("agents_list");
    reveal_strlit("skill_discover");
    reveal_strlit("skill_list");
    reveal_strlit("browser");
    reveal_strlit("browser_navigate");
}


/// The name of a built-in tool (see `builtin_tool_name`).
pub fn builtin_name_of(t: &RuntimeTool) -> (r: Option<&'static str>)
    ensures
        match builtin_tool_name(*t) {
            Some(n) => r matches Some(s) && s@ == n,
            None => r is None,
        },
{
    match t {
        RuntimeTool::Mcp { .. } => None,
        RuntimeTool::WorkspaceListDirectory => Some("workspace_list_directory"),
        RuntimeTool::WorkspaceReadFile => Some("workspace_read_file"),
        RuntimeTool::WorkspaceWriteFile => Some("workspace_write_file"),
        RuntimeTool::WorkspaceEditFile => Some("workspace_edit_file"),
        RuntimeTool::WorkspaceGlob => Some("workspace_search_glob"),
        RuntimeTool::WorkspaceGrep => Some("workspace_search_grep"),
        RuntimeTool::WorkspaceCodeSearch => Some("workspace_search_code"),
        RuntimeTool::WorkspaceLspSymbols => Some("workspace_lsp_symbols"),
        RuntimeTool::WorkspaceApplyPatch => Some("workspace_apply_patch"),
        RuntimeTool::WorkspaceRunCommand => Some("bash"),
        RuntimeTool::WorkspaceParsePdfMarkdown => Some("workspace_parse_pdf_markdown"),
        RuntimeTool::WorkspaceProcessStart => Some("workspace_process_start"),
        RuntimeTool::WorkspaceProcessList => Some("workspace_process_list"),
        RuntimeTool::WorkspaceProcessRead => Some("workspace_process_read"),
        RuntimeTool::WorkspaceProcessTerminate => Some("workspace_process_terminate"),
        RuntimeTool::SkillDiscover => Some("skill_discover"),
        RuntimeTool::SkillInstallFromRepo => Some("skill_install_from_repo"),
        RuntimeTool::SkillList => Some("skill_list"),
        RuntimeTool::SkillExecute => Some("skill_execute"),
        RuntimeTool::CoreBatch => Some("core_batch"),
        RuntimeTool::CoreTask => Some("core_task"),
        RuntimeTool::TodoRead => Some("todo_read"),
        RuntimeTool::TodoWrite => Some("todo_write"),
        RuntimeTool::WebFetch => Some("web_fetch"),
        RuntimeTool::WebSearch => Some("web_search"),
        RuntimeTool::Browser => Some("browser"),
        RuntimeTool::BrowserNavigate => Some("browser_navigate"),
        RuntimeTool::Desktop => Some("desktop"),
        RuntimeTool::ImageProbe => Some("image_probe"),
        RuntimeTool::ImageUnderstand => Some("image_understand"),
        RuntimeTool::SessionsList => Some("sessions_list"),
        RuntimeTool::SessionsHistory => Some("sessions_history"),
        RuntimeTool::SessionsSend => Some("sessions_send"),
        RuntimeTool::SessionsSpawn => Some("sessions_spawn"),
        RuntimeTool::AgentsList => Some("agents_list"),
        RuntimeTool::SchedulerJobsList => Some("scheduler_jobs_list"),
        RuntimeTool::SchedulerJobCreate => Some("scheduler_job_create"),
        RuntimeTool::SchedulerJobUpdate => Some("scheduler_job_update"),
        RuntimeTool::SchedulerJobDelete => Some("scheduler_job_delete"),
        RuntimeTool::SchedulerJobRun => Some("scheduler_job_run"),
        RuntimeTool::SchedulerRunsList => Some("scheduler_runs_list"),
    }
}

/// The workspace tools of the catalog, in the order the model sees them.
pub open spec fn workspace_catalog_tools() -> Seq<RuntimeTool> {
    seq![
        RuntimeTool::WorkspaceListDirectory,
        RuntimeTool::WorkspaceReadFile,
        RuntimeTool::WorkspaceWriteFile,
        RuntimeTool::WorkspaceEditFile,
        RuntimeTool::WorkspaceApplyPatch,
        RuntimeTool::WorkspaceGlob,
        RuntimeTool::WorkspaceGrep,
        RuntimeTool::WorkspaceCodeSearch,
        RuntimeTool::WorkspaceLspSymbols,
        RuntimeTool::WorkspaceRunCommand,
        RuntimeTool::WorkspaceProcessStart,
        RuntimeTool::WorkspaceProcessList,
        RuntimeTool::WorkspaceProcessRead,
        RuntimeTool::WorkspaceProcessTerminate,
    ]
}

/// The skill tools of the catalog, in order.
pub open spec fn skill_catalog_tools() -> Seq<RuntimeTool> {
    seq![
        RuntimeTool::SkillInstallFromRepo,
        RuntimeTool::SkillDiscover,
        RuntimeTool::SkillList,
        RuntimeTool::SkillExecute,
    ]
}

/// The core tools of the catalog, in order; the desktop tool, which drives
/// the Windows user interface, only where the desktop is supported.
pub open spec fn core_catalog_tools(desktop_supported: bool) -> Seq<RuntimeTool> {
    core_tools_before_desktop() + (if desktop_supported { seq![RuntimeTool::Desktop] } else { Seq::empty() })
        + core_tools_after_desktop()
}

/// The core tools up to the browser.
pub open spec fn core_tools_before_desktop() -> Seq<RuntimeTool> {
    seq![
        RuntimeTool::CoreBatch,
        RuntimeTool::CoreTask,
        RuntimeTool::TodoWrite,
        RuntimeTool::TodoRead,
        RuntimeTool::WebFetch,
        RuntimeTool::WebSearch,
        RuntimeTool::Browser,
        RuntimeTool::BrowserNavigate,
    ]
}

/// The core tools after the desktop tool.
pub open spec fn core_tools_after_desktop() -> Seq<RuntimeTool> {
    seq![
        RuntimeTool::ImageProbe,
        RuntimeTool::ImageUnderstand,
        RuntimeTool::SessionsList,
        RuntimeTool::SessionsHistory,
        RuntimeTool::SessionsSend,
        RuntimeTool::SessionsSpawn,
        RuntimeTool::AgentsList,
    ]
}

fn workspace_catalog_order() -> (r: Vec<RuntimeTool>)
    ensures
        r@ == workspace_catalog_tools(),
{
    let mut v: Vec<RuntimeTool> = Vec::new();
    v.push(RuntimeTool::WorkspaceListDirectory);
    v.push(RuntimeTool::WorkspaceReadFile);
    v.push(RuntimeTool::WorkspaceWriteFile);
    v.push(RuntimeTool::WorkspaceEditFile);
    v.push(RuntimeTool::WorkspaceApplyPatch);
    v.push(RuntimeTool::WorkspaceGlob);
    v.push(RuntimeTool::WorkspaceGrep);
    v.push(RuntimeTool::WorkspaceCodeSearch);
    v.push(RuntimeTool::WorkspaceLspSymbols);
    v.push(RuntimeTool::WorkspaceRunCommand);
    v.push(RuntimeTool::WorkspaceProcessStart);
    v.push(RuntimeTool::WorkspaceProcessList);
    v.push(RuntimeTool::WorkspaceProcessRead);
    v.push(RuntimeTool::WorkspaceProcessTerminate);
    assert(v@ =~= workspace_catalog_tools());
    v
}

fn skill_catalog_order() -> (r: Vec<RuntimeTool>)
    ensures
        r@ == skill_catalog_tools(),
{
    let mut v: Vec<RuntimeTool> = Vec::new();
    v.push(RuntimeTool::SkillInstallFromRepo);
    v.push(RuntimeTool::SkillDiscover);
    v.push(RuntimeTool::SkillList);
    v.push(RuntimeTool::SkillExecute);
    assert(v@ =~= skill_catalog_tools());
    v
}

fn core_catalog_order(desktop_supported: bool) -> (r: Vec<RuntimeTool>)
    ensures
        r@ == core_catalog_tools(desktop_supported),
{
    let mut v: Vec<RuntimeTool> = Vec::new();
    v.push(RuntimeTool::CoreBatch);
    v.push(RuntimeTool::CoreTask);
    v.push(RuntimeTool::TodoWrite);
    v.push(RuntimeTool::TodoRead);
    v.push(RuntimeTool::WebFetch);
    v.push(RuntimeTool::WebSearch);
    v.push(RuntimeTool::Browser);
    v.push(RuntimeTool::BrowserNavigate);
    if desktop_supported {
        v.push(RuntimeTool::Desktop);
    }
    v.push(RuntimeTool::ImageProbe);
    v.push(RuntimeTool::ImageUnderstand);
    v.push(RuntimeTool::SessionsList);
    v.push(RuntimeTool::SessionsHistory);
    v.push(RuntimeTool::SessionsSend);
    v.push(RuntimeTool::SessionsSpawn);
    v.push(RuntimeTool::AgentsList);
    assert(v@ =~= core_catalog_tools(desktop_supported));
    v
}

/// No built-in tool's name starts with `m`, the first letter of every MCP
/// tool's name.
pub proof fn lemma_builtin_name_not_mcp(t: RuntimeTool)
    ensures
        builtin_tool_name(t) matches Some(n) ==> n.len() > 0 && n[0] != 'm',
{
    match t {
        RuntimeTool::Mcp { .. } => {},
        RuntimeTool::WorkspaceListDirectory => {
            reveal_strlit("workspace_list_directory");
        },
        RuntimeTool::WorkspaceReadFile => {
            reveal_strlit("workspace_read_file");
        },
        RuntimeTool::WorkspaceWriteFile => {
            reveal_strlit("workspace_write_file");
        },
        RuntimeTool::WorkspaceEditFile => {
            reveal_strlit("workspace_edit_file");
        },
        RuntimeTool::WorkspaceGlob => {
            reveal_strlit("workspace_search_glob");
        },
        RuntimeTool::WorkspaceGrep => {
            reveal_strlit("workspace_search_grep");
        },
        RuntimeTool::WorkspaceCodeSearch => {
            reveal_strlit("workspace_search_code");
        },
        RuntimeTool::WorkspaceLspSymbols => {
            reveal_strlit("workspace_lsp_symbols");
        },
        RuntimeTool::WorkspaceApplyPatch => {
            reveal_strlit("workspace_apply_patch");
        },
        RuntimeTool::WorkspaceRunCommand => {
            reveal_strlit("bash");
        },
        RuntimeTool::WorkspaceParsePdfMarkdown => {
            reveal_strlit("workspace_parse_pdf_markdown");
        },
        RuntimeTool::WorkspaceProcessStart => {
            reveal_strlit("workspace_process_start");
        },
        RuntimeTool::WorkspaceProcessList => {
            reveal_strlit("workspace_process_list");
        },
        RuntimeTool::WorkspaceProcessRead => {
            reveal_strlit("workspace_process_read");
        },
        RuntimeTool::WorkspaceProcessTerminate => {
            reveal_strlit("workspace_process_terminate");
        },
        RuntimeTool::SkillDiscover => {
            reveal_strlit("skill_discover");
        },
        RuntimeTool::SkillInstallFromRepo => {
            reveal_strlit("skill_install_from_repo");
        },
        RuntimeTool::SkillList => {
            reveal_strlit("skill_list");
        },
        RuntimeTool::SkillExecute => {
            reveal_strlit("skill_execute");
        },
        RuntimeTool::CoreBatch => {
            reveal_strlit("core_batch");
        },
        RuntimeTool::CoreTask => {
            reveal_strlit("core_task");
        },
        RuntimeTool::TodoRead => {
            reveal_strlit("todo_read");
        },
        RuntimeTool::TodoWrite => {
            reveal_strlit("todo_write");
        },
        RuntimeTool::WebFetch => {
            reveal_strlit("web_fetch");
        },
        RuntimeTool::WebSearch => {
            reveal_strlit("web_search");
        },
        RuntimeTool::Browser => {
            reveal_strlit("browser");
        },
        RuntimeTool::BrowserNavigate => {
            reveal_strlit("browser_navigate");
        },
        RuntimeTool::Desktop => {
            reveal_strlit("desktop");
        },
        RuntimeTool::ImageProbe => {
            reveal_strlit("image_probe");
        },
        RuntimeTool::ImageUnderstand => {
            reveal_strlit("image_understand");
        },
        RuntimeTool::SessionsList => {
            reveal_strlit("sessions_list");
        },
        RuntimeTool::SessionsHistory => {
            reveal_strlit("sessions_history");
        },
        RuntimeTool::SessionsSend => {
            reveal_strlit("sessions_send");
        },
        RuntimeTool::SessionsSpawn => {
            reveal_strlit("sessions_spawn");
        },
        RuntimeTool::AgentsList => {
            reveal_strlit("agents_list");
        },
        RuntimeTool::SchedulerJobsList => {
            reveal_strlit("scheduler_jobs_list");
        },
        RuntimeTool::SchedulerJobCreate => {
            reveal_strlit("scheduler_job_create");
        },
        RuntimeTool::SchedulerJobUpdate => {
            reveal_strlit("scheduler_job_update");
        },
        RuntimeTool::SchedulerJobDelete => {
            reveal_strlit("scheduler_job_delete");
        },
        RuntimeTool::SchedulerJobRun => {
            reveal_strlit("scheduler_job_run");
        },
        RuntimeTool::SchedulerRunsList => {
            reveal_strlit("scheduler_runs_list");
        },
    }
}


/// The description a built-in tool is offered with; a workspace tool's
/// ends with the workspace root.
pub open spec fn builtin_description(t: RuntimeTool, root: Seq<char>) -> Seq<char> {
    match t {
        RuntimeTool::WorkspaceListDirectory => "List direct children of a directory in the local workspace (non-recursive peek). Avoid using this for recursive traversal, file counting, folder-size calculation, or large inventory tasks. On Windows, prefer workspace_run_command with PowerShell for those operations. Workspace root: "@ + root,
        RuntimeTool::WorkspaceReadFile => "Read a UTF-8 text file from the local workspace. Supports offset and line caps. Workspace root: "@ + root,
        RuntimeTool::WorkspaceWriteFile => "Write text content to a file in the local workspace (atomic overwrite). Workspace root: "@ + root,
        RuntimeTool::WorkspaceEditFile => "Edit a file by replacing an exact snippet. Workspace root: "@ + root,
        RuntimeTool::WorkspaceApplyPatch => "Apply a structured patch envelope (*** Begin Patch ... *** End Patch) in the workspace. Workspace root: "@ + root,
        RuntimeTool::WorkspaceGlob => "Find workspace paths by glob patterns. Workspace root: "@ + root,
        RuntimeTool::WorkspaceGrep => "Search file contents with regex/string matching in the workspace. Workspace root: "@ + root,
        RuntimeTool::WorkspaceCodeSearch => "Code-aware text search with surrounding context snippets. Workspace root: "@ + root,
        RuntimeTool::WorkspaceLspSymbols => "Best-effort symbol scan (functions/classes/types) without a language server. Workspace root: "@ + root,
        RuntimeTool::WorkspaceRunCommand => "Run a shell command in the local workspace and return stdout/stderr. On Windows this executes in PowerShell (-NoProfile -Command). Prefer this tool for recursive file traversal, file statistics, folder size, bulk listing/sorting/filtering, and other batch filesystem tasks. Workspace root: "@ + root,
        RuntimeTool::WorkspaceProcessStart => "Start a long-running background process in the workspace. Workspace root: "@ + root,
        RuntimeTool::WorkspaceProcessList => "List managed background processes started by workspace_process_start."@,
        RuntimeTool::WorkspaceProcessRead => "Read stdout/stderr snapshots for a managed background process."@,
        RuntimeTool::WorkspaceProcessTerminate => "Terminate a managed background process by process_id."@,
        RuntimeTool::SkillInstallFromRepo => "Install a skill package from ClawHub download URL (zip/tar.gz), a ClawHub skill page URL, or a skill slug. Git repository clone is disabled. Use only when user intent requires adding a capability and source is provided/approved."@,
        RuntimeTool::SkillDiscover => "Discover installable skills from ClawHub registry only (downloadable packages). Uses ClawHub API base configured in Settings. Use this when no installed skill clearly matches the task."@,
        RuntimeTool::SkillList => "List installed skills and their enabled status. Always use this first when task requirements are unfamiliar, specialized, or uncertain."@,
        RuntimeTool::SkillExecute => "Execute an installed skill by id or name after selecting candidate(s) from skills_list."@,
        RuntimeTool::CoreBatch => "Run multiple independent safe tool calls in one request."@,
        RuntimeTool::CoreTask => "Run a sub-task prompt with text-only response."@,
        RuntimeTool::TodoWrite => "Create/update/remove TODO items for the current conversation."@,
        RuntimeTool::TodoRead => "Read TODO items for the current conversation."@,
        RuntimeTool::WebFetch => "Fetch URL content with retry, redirects and HTML extraction controls."@,
        RuntimeTool::WebSearch => "Search the web (Exa MCP first, then Bing/DuckDuckGo fallback)."@,
        RuntimeTool::Browser => "Control managed browser sessions (status/start/stop/profiles/tabs/open/focus/close/navigate/snapshot/screenshot/act/act_batch/console/errors/requests/response_body/pdf/cookies/storage/evaluate/trace). Use this tool exclusively for browser launch/navigation/page interactions. For fast and stable interactions: snapshot after navigation or after an act failure, and use act_batch for consecutive actions."@,
        RuntimeTool::BrowserNavigate => "Legacy browser navigate alias. Internally forwards to browser action=navigate and returns title+links payload."@,
        RuntimeTool::Desktop => "Control Windows desktop GUI and Office apps with UFO-style workflow. Required sequence for reliable UI actions: 1) get_desktop_app_info or list_windows, 2) select_application_window or select_window, 3) get_app_window_controls_info or get_controls (refresh=true), 4) control actions (click_input/set_edit_text/keyboard_input/wheel_mouse_input/texts) using exact control id + exact name. Browser operations are excluded and must use the browser tool. Use click_on_coordinates only when target control is missing from control list."@,
        RuntimeTool::ImageProbe => "Probe image metadata from local path or URL (format, dimensions when detectable)."@,
        RuntimeTool::ImageUnderstand => "Analyze an image with a vision model using a prompt. Supports workspace path or public URL."@,
        RuntimeTool::SessionsList => "List conversations/sessions."@,
        RuntimeTool::SessionsHistory => "Read message history for a conversation."@,
        RuntimeTool::SessionsSend => "Send a message into an existing conversation and optionally run one assistant step."@,
        RuntimeTool::SessionsSpawn => "Create a new conversation/session and optionally run one assistant step."@,
        RuntimeTool::AgentsList => "List available built-in agent profiles."@,
        _ => Seq::empty(),
    }
}

/// The JSON schema of a built-in tool's parameters, as JSON text.
pub open spec fn builtin_parameters(t: RuntimeTool) -> Seq<char> {
    match t {
        RuntimeTool::WorkspaceListDirectory => "{\"type\":\"object\",\"properties\":{\"path\":{\"type\":\"string\",\"description\":\"Directory path to list. Relative paths are resolved from the workspace root.\"}}}"@,
        RuntimeTool::WorkspaceReadFile => "{\"type\":\"object\",\"properties\":{\"path\":{\"type\":\"string\"},\"max_bytes\":{\"type\":\"integer\",\"description\":\"Default 200000, max 2000000.\"},\"offset_bytes\":{\"type\":\"integer\",\"description\":\"Start byte offset. Default 0.\"},\"max_lines\":{\"type\":\"integer\",\"description\":\"Maximum lines to return after offset.\"}},\"required\":[\"path\"]}"@,
        RuntimeTool::WorkspaceWriteFile => "{\"type\":\"object\",\"properties\":{\"path\":{\"type\":\"string\"},\"content\":{\"type\":\"string\"},\"append\":{\"type\":\"boolean\",\"description\":\"Append mode disables atomic overwrite.\"}},\"required\":[\"path\",\"content\"]}"@,
        RuntimeTool::WorkspaceEditFile => "{\"type\":\"object\",\"properties\":{\"path\":{\"type\":\"string\"},\"old_string\":{\"type\":\"string\"},\"new_string\":{\"type\":\"string\"},\"replace_all\":{\"type\":\"boolean\"}},\"required\":[\"path\",\"old_string\",\"new_string\"]}"@,
        RuntimeTool::WorkspaceApplyPatch => "{\"type\":\"object\",\"properties\":{\"patch\":{\"type\":\"string\"},\"dry_run\":{\"type\":\"boolean\"}},\"required\":[\"patch\"]}"@,
        RuntimeTool::WorkspaceGlob => "{\"type\":\"object\",\"properties\":{\"pattern\":{\"type\":\"string\",\"description\":\"Glob pattern such as **/*.ts\"},\"path\":{\"type\":\"string\",\"description\":\"Base directory, default .\"},\"max_results\":{\"type\":\"integer\",\"description\":\"Default 200, max 5000\"},\"include_directories\":{\"type\":\"boolean\"}},\"required\":[\"pattern\"]}"@,
        RuntimeTool::WorkspaceGrep => "{\"type\":\"object\",\"properties\":{\"pattern\":{\"type\":\"string\"},\"path\":{\"type\":\"string\",\"description\":\"Base directory, default .\"},\"glob\":{\"type\":\"string\",\"description\":\"Optional file glob filter, e.g. **/*.rs\"},\"case_sensitive\":{\"type\":\"boolean\"},\"regex\":{\"type\":\"boolean\"},\"max_results\":{\"type\":\"integer\",\"description\":\"Default 200, max 5000\"}},\"required\":[\"pattern\"]}"@,
        RuntimeTool::WorkspaceCodeSearch => "{\"type\":\"object\",\"properties\":{\"query\":{\"type\":\"string\"},\"path\":{\"type\":\"string\"},\"glob\":{\"type\":\"string\",\"description\":\"Optional file glob, default **/*\"},\"context_lines\":{\"type\":\"integer\",\"description\":\"Default 2\"},\"max_results\":{\"type\":\"integer\",\"description\":\"Default 100\"}},\"required\":[\"query\"]}"@,
        RuntimeTool::WorkspaceLspSymbols => "{\"type\":\"object\",\"properties\":{\"query\":{\"type\":\"string\",\"description\":\"Optional symbol name filter\"},\"path\":{\"type\":\"string\",\"description\":\"Base directory, default .\"},\"max_results\":{\"type\":\"integer\",\"description\":\"Default 200\"}}}"@,
        RuntimeTool::WorkspaceRunCommand => "{\"type\":\"object\",\"properties\":{\"command\":{\"type\":\"string\"},\"timeout_ms\":{\"type\":\"integer\",\"description\":\"Default 20000, max 120000.\"}},\"required\":[\"command\"]}"@,
        RuntimeTool::WorkspaceProcessStart => "{\"type\":\"object\",\"properties\":{\"command\":{\"type\":\"string\"}},\"required\":[\"command\"]}"@,
        RuntimeTool::WorkspaceProcessList => "{\"type\":\"object\",\"properties\":{}}"@,
        RuntimeTool::WorkspaceProcessRead => "{\"type\":\"object\",\"properties\":{\"process_id\":{\"type\":\"string\"},\"max_chars\":{\"type\":\"integer\",\"description\":\"Default 6000\"}},\"required\":[\"process_id\"]}"@,
        RuntimeTool::WorkspaceProcessTerminate => "{\"type\":\"object\",\"properties\":{\"process_id\":{\"type\":\"string\"}},\"required\":[\"process_id\"]}"@,
        RuntimeTool::SkillInstallFromRepo => "{\"type\":\"object\",\"properties\":{\"repo_url\":{\"type\":\"string\"},\"skill_path\":{\"type\":\"string\",\"description\":\"Optional relative path to skill directory inside the downloaded package.\"}},\"required\":[\"repo_url\"]}"@,
        RuntimeTool::SkillDiscover => "{\"type\":\"object\",\"properties\":{\"query\":{\"type\":\"string\",\"description\":\"Search query, e.g. 'word docx export'.\"},\"limit\":{\"type\":\"integer\",\"description\":\"Number of results, default 8, max 20.\"}}}"@,
        RuntimeTool::SkillList => "{\"type\":\"object\",\"properties\":{}}"@,
        RuntimeTool::SkillExecute => "{\"type\":\"object\",\"properties\":{\"skill_id\":{\"type\":\"string\"},\"skill_name\":{\"type\":\"string\"},\"params\":{\"type\":\"object\"}}}"@,
        RuntimeTool::CoreBatch => "{\"type\":\"object\",\"properties\":{\"tool_calls\":{\"type\":\"array\",\"items\":{\"type\":\"object\",\"properties\":{\"tool\":{\"type\":\"string\"},\"arguments\":{\"type\":\"object\"}},\"required\":[\"tool\"]}}},\"required\":[\"tool_calls\"]}"@,
        RuntimeTool::CoreTask => "{\"type\":\"object\",\"properties\":{\"prompt\":{\"type\":\"string\"},\"model\":{\"type\":\"string\"}},\"required\":[\"prompt\"]}"@,
        RuntimeTool::TodoWrite => "{\"type\":\"object\",\"properties\":{\"action\":{\"type\":\"string\",\"description\":\"add|set|update|remove|clear\"},\"id\":{\"type\":\"string\"},\"text\":{\"type\":\"string\"},\"status\":{\"type\":\"string\",\"description\":\"pending|in_progress|completed\"},\"items\":{\"type\":\"array\",\"items\":{\"type\":\"object\"}}},\"required\":[\"action\"]}"@,
        RuntimeTool::TodoRead => "{\"type\":\"object\",\"properties\":{}}"@,
        RuntimeTool::WebFetch => "{\"type\":\"object\",\"properties\":{\"url\":{\"type\":\"string\"},\"max_chars\":{\"type\":\"integer\"},\"timeout_ms\":{\"type\":\"integer\"},\"retries\":{\"type\":\"integer\",\"description\":\"0-3 retry attempts for transient failures\"},\"max_redirects\":{\"type\":\"integer\",\"description\":\"0-10 redirects\"},\"format\":{\"type\":\"string\",\"description\":\"auto|text|markdown|html\"},\"user_agent\":{\"type\":\"string\"},\"accept_language\":{\"type\":\"string\"}},\"required\":[\"url\"]}"@,
        RuntimeTool::WebSearch => "{\"type\":\"object\",\"properties\":{\"query\":{\"type\":\"string\"},\"max_results\":{\"type\":\"integer\"},\"timeout_ms\":{\"type\":\"integer\"},\"provider\":{\"type\":\"string\",\"description\":\"auto|exa|bing|duckduckgo\"},\"exa_url\":{\"type\":\"string\",\"description\":\"MCP endpoint URL, defaults to https://mcp.exa.ai/mcp\"},\"search_lang\":{\"type\":\"string\"},\"ui_lang\":{\"type\":\"string\"},\"country\":{\"type\":\"string\"}},\"required\":[\"query\"]}"@,
        RuntimeTool::Browser => "{\"type\":\"object\",\"properties\":{\"action\":{\"type\":\"string\",\"description\":\"status|start|stop|profiles|tabs|open|focus|close|navigate|snapshot|screenshot|act|act_batch|console|errors|requests|response_body|pdf|cookies_get|cookies_set|cookies_clear|storage_get|storage_set|storage_clear|set_offline|set_headers|set_credentials|set_geolocation|set_media|set_timezone|set_locale|set_device|trace_start|trace_stop|evaluate|reset_profile\"},\"profile\":{\"type\":\"string\"},\"target_id\":{\"type\":\"string\"},\"params\":{\"type\":\"object\"}},\"required\":[\"action\"]}"@,
        RuntimeTool::BrowserNavigate => "{\"type\":\"object\",\"properties\":{\"url\":{\"type\":\"string\"},\"max_links\":{\"type\":\"integer\"}},\"required\":[\"url\"]}"@,
        RuntimeTool::Desktop => "{\"type\":\"object\",\"properties\":{\"action\":{\"type\":\"string\",\"description\":\"status|list_windows|get_desktop_app_info|get_desktop_app_target_info|select_window|select_application_window|get_window_info|get_app_window_info|get_controls|get_app_window_controls_info|get_app_window_controls_target_info|get_ui_tree|capture_desktop_screenshot|capture_window_screenshot|get_control_texts|texts|wait|summary|launch_application|close_application|click_input|click_on_coordinates|drag_on_coordinates|set_edit_text|keyboard_input|wheel_mouse_input|word_get_doc_info|word_insert_text|word_insert_table|word_save_as|excel_get_workbook_info|excel_set_cell|excel_set_range|excel_save_as|ppt_get_presentation_info|ppt_add_slide|ppt_set_text|ppt_save_as\"},\"params\":{\"type\":\"object\",\"description\":\"Action-specific parameters. UFO-style canonical args: select_application_window(id,name), set_edit_text(id,name,text), keyboard_input(id,name,keys,control_focus), wheel_mouse_input(id,name,wheel_dist), click_input(id,name,button,double), texts(id,name). For control actions use exact id + exact name. For control/window collectors pass field_list (string[]). For launch_application use one of: command | application_path | app_path | executable | app_name | bash_command, but only for non-browser apps. Browser launch/navigation is forbidden here and must use tool=browser. Optional: args (string[]), cwd. Compatibility: select_application_window also accepts window_id/hwnd; keyboard_input also accepts text as alias of keys.\"}},\"required\":[\"action\"]}"@,
        RuntimeTool::ImageProbe => "{\"type\":\"object\",\"properties\":{\"path\":{\"type\":\"string\"},\"url\":{\"type\":\"string\"}}}"@,
        RuntimeTool::ImageUnderstand => "{\"type\":\"object\",\"properties\":{\"prompt\":{\"type\":\"string\",\"description\":\"Question or instruction for the image.\"},\"path\":{\"type\":\"string\",\"description\":\"Workspace-relative or absolute path inside workspace root.\"},\"url\":{\"type\":\"string\",\"description\":\"Public http/https URL or data:image/... URL.\"},\"model\":{\"type\":\"string\",\"description\":\"Vision model name. Default glm-4.6v.\"},\"thinking\":{\"type\":\"boolean\",\"description\":\"Enable model thinking mode when supported.\"},\"max_bytes\":{\"type\":\"integer\",\"description\":\"Max local image bytes. Default 4MB, max 8MB.\"}},\"required\":[\"prompt\"]}"@,
        RuntimeTool::SessionsList => "{\"type\":\"object\",\"properties\":{\"limit\":{\"type\":\"integer\"}}}"@,
        RuntimeTool::SessionsHistory => "{\"type\":\"object\",\"properties\":{\"conversation_id\":{\"type\":\"string\"},\"limit\":{\"type\":\"integer\"}},\"required\":[\"conversation_id\"]}"@,
        RuntimeTool::SessionsSend => "{\"type\":\"object\",\"properties\":{\"conversation_id\":{\"type\":\"string\"},\"content\":{\"type\":\"string\"},\"run_assistant\":{\"type\":\"boolean\"},\"model\":{\"type\":\"string\"}},\"required\":[\"conversation_id\",\"content\"]}"@,
        RuntimeTool::SessionsSpawn => "{\"type\":\"object\",\"properties\":{\"title\":{\"type\":\"string\"},\"content\":{\"type\":\"string\"},\"model\":{\"type\":\"string\"},\"run_assistant\":{\"type\":\"boolean\"}},\"required\":[\"title\"]}"@,
        RuntimeTool::AgentsList => "{\"type\":\"object\",\"properties\":{}}"@,
        _ => Seq::empty(),
    }
}

fn with_root(prefix: &str, root: &str) -> (r: String)
    ensures
        r@ == prefix@ + root@,
{
    let mut out = chars_of(prefix);
    push_all(&mut out, chars_of(root).as_slice());
    string_of(out.as_slice())
}

/// The description of a built-in tool (see `builtin_description`).
pub fn builtin_description_of(t: &RuntimeTool, root: &str) -> (r: String)
    ensures
        r@ == builtin_description(*t, root@),
{
    match t {
        RuntimeTool::WorkspaceListDirectory => with_root("List direct children of a directory in the local workspace (non-recursive peek). Avoid using this for recursive traversal, file counting, folder-size calculation, or large inventory tasks. On Windows, prefer workspace_run_command with PowerShell for those operations. Workspace root: ", root),
        RuntimeTool::WorkspaceReadFile => with_root("Read a UTF-8 text file from the local workspace. Supports offset and line caps. Workspace root: ", root),
        RuntimeTool::WorkspaceWriteFile => with_root("Write text content to a file in the local workspace (atomic overwrite). Workspace root: ", root),
        RuntimeTool::WorkspaceEditFile => with_root("Edit a file by replacing an exact snippet. Workspace root: ", root),
        RuntimeTool::WorkspaceApplyPatch => with_root("Apply a structured patch envelope (*** Begin Patch ... *** End Patch) in the workspace. Workspace root: ", root),
        RuntimeTool::WorkspaceGlob => with_root("Find workspace paths by glob patterns. Workspace root: ", root),
        RuntimeTool::WorkspaceGrep => with_root("Search file contents with regex/string matching in the workspace. Workspace root: ", root),
        RuntimeTool::WorkspaceCodeSearch => with_root("Code-aware text search with surrounding context snippets. Workspace root: ", root),
        RuntimeTool::WorkspaceLspSymbols => with_root("Best-effort symbol scan (functions/classes/types) without a language server. Workspace root: ", root),
        RuntimeTool::WorkspaceRunCommand => with_root("Run a shell command in the local workspace and return stdout/stderr. On Windows this executes in PowerShell (-NoProfile -Command). Prefer this tool for recursive file traversal, file statistics, folder size, bulk listing/sorting/filtering, and other batch filesystem tasks. Workspace root: ", root),
        RuntimeTool::WorkspaceProcessStart => with_root("Start a long-running background process in the workspace. Workspace root: ", root),
        RuntimeTool::WorkspaceProcessList => owned("List managed background processes started by workspace_process_start."),
        RuntimeTool::WorkspaceProcessRead => owned("Read stdout/stderr snapshots for a managed background process."),
        RuntimeTool::WorkspaceProcessTerminate => owned("Terminate a managed background process by process_id."),
        RuntimeTool::SkillInstallFromRepo => owned("Install a skill package from ClawHub download URL (zip/tar.gz), a ClawHub skill page URL, or a skill slug. Git repository clone is disabled. Use only when user intent requires adding a capability and source is provided/approved."),
        RuntimeTool::SkillDiscover => owned("Discover installable skills from ClawHub registry only (downloadable packages). Uses ClawHub API base configured in Settings. Use this when no installed skill clearly matches the task."),
        RuntimeTool::SkillList => owned("List installed skills and their enabled status. Always use this first when task requirements are unfamiliar, specialized, or uncertain."),
        RuntimeTool::SkillExecute => owned("Execute an installed skill by id or name after selecting candidate(s) from skills_list."),
        RuntimeTool::CoreBatch => owned("Run multiple independent safe tool calls in one request."),
        RuntimeTool::CoreTask => owned("Run a sub-task prompt with text-only response."),
        RuntimeTool::TodoWrite => owned("Create/update/remove TODO items for the current conversation."),
        RuntimeTool::TodoRead => owned("Read TODO items for the current conversation."),
        RuntimeTool::WebFetch => owned("Fetch URL content with retry, redirects and HTML extraction controls."),
        RuntimeTool::WebSearch => owned("Search the web (Exa MCP first, then Bing/DuckDuckGo fallback)."),
        RuntimeTool::Browser => owned("Control managed browser sessions (status/start/stop/profiles/tabs/open/focus/close/navigate/snapshot/screenshot/act/act_batch/console/errors/requests/response_body/pdf/cookies/storage/evaluate/trace). Use this tool exclusively for browser launch/navigation/page interactions. For fast and stable interactions: snapshot after navigation or after an act failure, and use act_batch for consecutive actions."),
        RuntimeTool::BrowserNavigate => owned("Legacy browser navigate alias. Internally forwards to browser action=navigate and returns title+links payload."),
        RuntimeTool::Desktop => owned("Control Windows desktop GUI and Office apps with UFO-style workflow. Required sequence for reliable UI actions: 1) get_desktop_app_info or list_windows, 2) select_application_window or select_window, 3) get_app_window_controls_info or get_controls (refresh=true), 4) control actions (click_input/set_edit_text/keyboard_input/wheel_mouse_input/texts) using exact control id + exact name. Browser operations are excluded and must use the browser tool. Use click_on_coordinates only when target control is missing from control list."),
        RuntimeTool::ImageProbe => owned("Probe image metadata from local path or URL (format, dimensions when detectable)."),
        RuntimeTool::ImageUnderstand => owned("Analyze an image with a vision model using a prompt. Supports workspace path or public URL."),
        RuntimeTool::SessionsList => owned("List conversations/sessions."),
        RuntimeTool::SessionsHistory => owned("Read message history for a conversation."),
        RuntimeTool::SessionsSend => owned("Send a message into an existing conversation and optionally run one assistant step."),
        RuntimeTool::SessionsSpawn => owned("Create a new conversation/session and optionally run one assistant step."),
        RuntimeTool::AgentsList => owned("List available built-in agent profiles."),
        _ => String::new(),
    }
}

/// The parameter schema of a built-in tool (see `builtin_parameters`).
pub fn builtin_parameters_of(t: &RuntimeTool) -> (r: &'static str)
    ensures
        r@ == builtin_parameters(*t),
{
    match t {
        RuntimeTool::WorkspaceListDirectory => "{\"type\":\"object\",\"properties\":{\"path\":{\"type\":\"string\",\"description\":\"Directory path to list. Relative paths are resolved from the workspace root.\"}}}",
        RuntimeTool::WorkspaceReadFile => "{\"type\":\"object\",\"properties\":{\"path\":{\"type\":\"string\"},\"max_bytes\":{\"type\":\"integer\",\"description\":\"Default 200000, max 2000000.\"},\"offset_bytes\":{\"type\":\"integer\",\"description\":\"Start byte offset. Default 0.\"},\"max_lines\":{\"type\":\"integer\",\"description\":\"Maximum lines to return after offset.\"}},\"required\":[\"path\"]}",
        RuntimeTool::WorkspaceWriteFile => "{\"type\":\"object\",\"properties\":{\"path\":{\"type\":\"string\"},\"content\":{\"type\":\"string\"},\"append\":{\"type\":\"boolean\",\"description\":\"Append mode disables atomic overwrite.\"}},\"required\":[\"path\",\"content\"]}",
        RuntimeTool::WorkspaceEditFile => "{\"type\":\"object\",\"properties\":{\"path\":{\"type\":\"string\"},\"old_string\":{\"type\":\"string\"},\"new_string\":{\"type\":\"string\"},\"replace_all\":{\"type\":\"boolean\"}},\"required\":[\"path\",\"old_string\",\"new_string\"]}",
        RuntimeTool::WorkspaceApplyPatch => "{\"type\":\"object\",\"properties\":{\"patch\":{\"type\":\"string\"},\"dry_run\":{\"type\":\"boolean\"}},\"required\":[\"patch\"]}",
        RuntimeTool::WorkspaceGlob => "{\"type\":\"object\",\"properties\":{\"pattern\":{\"type\":\"string\",\"description\":\"Glob pattern such as **/*.ts\"},\"path\":{\"type\":\"string\",\"description\":\"Base directory, default .\"},\"max_results\":{\"type\":\"integer\",\"description\":\"Default 200, max 5000\"},\"include_directories\":{\"type\":\"boolean\"}},\"required\":[\"pattern\"]}",
        RuntimeTool::WorkspaceGrep => "{\"type\":\"object\",\"properties\":{\"pattern\":{\"type\":\"string\"},\"path\":{\"type\":\"string\",\"description\":\"Base directory, default .\"},\"glob\":{\"type\":\"string\",\"description\":\"Optional file glob filter, e.g. **/*.rs\"},\"case_sensitive\":{\"type\":\"boolean\"},\"regex\":{\"type\":\"boolean\"},\"max_results\":{\"type\":\"integer\",\"description\":\"Default 200, max 5000\"}},\"required\":[\"pattern\"]}",
        RuntimeTool::WorkspaceCodeSearch => "{\"type\":\"object\",\"properties\":{\"query\":{\"type\":\"string\"},\"path\":{\"type\":\"string\"},\"glob\":{\"type\":\"string\",\"description\":\"Optional file glob, default **/*\"},\"context_lines\":{\"type\":\"integer\",\"description\":\"Default 2\"},\"max_results\":{\"type\":\"integer\",\"description\":\"Default 100\"}},\"required\":[\"query\"]}",
        RuntimeTool::WorkspaceLspSymbols => "{\"type\":\"object\",\"properties\":{\"query\":{\"type\":\"string\",\"description\":\"Optional symbol name filter\"},\"path\":{\"type\":\"string\",\"description\":\"Base directory, default .\"},\"max_results\":{\"type\":\"integer\",\"description\":\"Default 200\"}}}",
        RuntimeTool::WorkspaceRunCommand => "{\"type\":\"object\",\"properties\":{\"command\":{\"type\":\"string\"},\"timeout_ms\":{\"type\":\"integer\",\"description\":\"Default 20000, max 120000.\"}},\"required\":[\"command\"]}",
        RuntimeTool::WorkspaceProcessStart => "{\"type\":\"object\",\"properties\":{\"command\":{\"type\":\"string\"}},\"required\":[\"command\"]}",
        RuntimeTool::WorkspaceProcessList => "{\"type\":\"object\",\"properties\":{}}",
        RuntimeTool::WorkspaceProcessRead => "{\"type\":\"object\",\"properties\":{\"process_id\":{\"type\":\"string\"},\"max_chars\":{\"type\":\"integer\",\"description\":\"Default 6000\"}},\"required\":[\"process_id\"]}",
        RuntimeTool::WorkspaceProcessTerminate => "{\"type\":\"object\",\"properties\":{\"process_id\":{\"type\":\"string\"}},\"required\":[\"process_id\"]}",
        RuntimeTool::SkillInstallFromRepo => "{\"type\":\"object\",\"properties\":{\"repo_url\":{\"type\":\"string\"},\"skill_path\":{\"type\":\"string\",\"description\":\"Optional relative path to skill directory inside the downloaded package.\"}},\"required\":[\"repo_url\"]}",
        RuntimeTool::SkillDiscover => "{\"type\":\"object\",\"properties\":{\"query\":{\"type\":\"string\",\"description\":\"Search query, e.g. 'word docx export'.\"},\"limit\":{\"type\":\"integer\",\"description\":\"Number of results, default 8, max 20.\"}}}",
        RuntimeTool::SkillList => "{\"type\":\"object\",\"properties\":{}}",
        RuntimeTool::SkillExecute => "{\"type\":\"object\",\"properties\":{\"skill_id\":{\"type\":\"string\"},\"skill_name\":{\"type\":\"string\"},\"params\":{\"type\":\"object\"}}}",
        RuntimeTool::CoreBatch => "{\"type\":\"object\",\"properties\":{\"tool_calls\":{\"type\":\"array\",\"items\":{\"type\":\"object\",\"properties\":{\"tool\":{\"type\":\"string\"},\"arguments\":{\"type\":\"object\"}},\"required\":[\"tool\"]}}},\"required\":[\"tool_calls\"]}",
        RuntimeTool::CoreTask => "{\"type\":\"object\",\"properties\":{\"prompt\":{\"type\":\"string\"},\"model\":{\"type\":\"string\"}},\"required\":[\"prompt\"]}",
        RuntimeTool::TodoWrite => "{\"type\":\"object\",\"properties\":{\"action\":{\"type\":\"string\",\"description\":\"add|set|update|remove|clear\"},\"id\":{\"type\":\"string\"},\"text\":{\"type\":\"string\"},\"status\":{\"type\":\"string\",\"description\":\"pending|in_progress|completed\"},\"items\":{\"type\":\"array\",\"items\":{\"type\":\"object\"}}},\"required\":[\"action\"]}",
        RuntimeTool::TodoRead => "{\"type\":\"object\",\"properties\":{}}",
        RuntimeTool::WebFetch => "{\"type\":\"object\",\"properties\":{\"url\":{\"type\":\"string\"},\"max_chars\":{\"type\":\"integer\"},\"timeout_ms\":{\"type\":\"integer\"},\"retries\":{\"type\":\"integer\",\"description\":\"0-3 retry attempts for transient failures\"},\"max_redirects\":{\"type\":\"integer\",\"description\":\"0-10 redirects\"},\"format\":{\"type\":\"string\",\"description\":\"auto|text|markdown|html\"},\"user_agent\":{\"type\":\"string\"},\"accept_language\":{\"type\":\"string\"}},\"required\":[\"url\"]}",
        RuntimeTool::WebSearch => "{\"type\":\"object\",\"properties\":{\"query\":{\"type\":\"string\"},\"max_results\":{\"type\":\"integer\"},\"timeout_ms\":{\"type\":\"integer\"},\"provider\":{\"type\":\"string\",\"description\":\"auto|exa|bing|duckduckgo\"},\"exa_url\":{\"type\":\"string\",\"description\":\"MCP endpoint URL, defaults to https://mcp.exa.ai/mcp\"},\"search_lang\":{\"type\":\"string\"},\"ui_lang\":{\"type\":\"string\"},\"country\":{\"type\":\"string\"}},\"required\":[\"query\"]}",
        RuntimeTool::Browser => "{\"type\":\"object\",\"properties\":{\"action\":{\"type\":\"string\",\"description\":\"status|start|stop|profiles|tabs|open|focus|close|navigate|snapshot|screenshot|act|act_batch|console|errors|requests|response_body|pdf|cookies_get|cookies_set|cookies_clear|storage_get|storage_set|storage_clear|set_offline|set_headers|set_credentials|set_geolocation|set_media|set_timezone|set_locale|set_device|trace_start|trace_stop|evaluate|reset_profile\"},\"profile\":{\"type\":\"string\"},\"target_id\":{\"type\":\"string\"},\"params\":{\"type\":\"object\"}},\"required\":[\"action\"]}",
        RuntimeTool::BrowserNavigate => "{\"type\":\"object\",\"properties\":{\"url\":{\"type\":\"string\"},\"max_links\":{\"type\":\"integer\"}},\"required\":[\"url\"]}",
        RuntimeTool::Desktop => "{\"type\":\"object\",\"properties\":{\"action\":{\"type\":\"string\",\"description\":\"status|list_windows|get_desktop_app_info|get_desktop_app_target_info|select_window|select_application_window|get_window_info|get_app_window_info|get_controls|get_app_window_controls_info|get_app_window_controls_target_info|get_ui_tree|capture_desktop_screenshot|capture_window_screenshot|get_control_texts|texts|wait|summary|launch_application|close_application|click_input|click_on_coordinates|drag_on_coordinates|set_edit_text|keyboard_input|wheel_mouse_input|word_get_doc_info|word_insert_text|word_insert_table|word_save_as|excel_get_workbook_info|excel_set_cell|excel_set_range|excel_save_as|ppt_get_presentation_info|ppt_add_slide|ppt_set_text|ppt_save_as\"},\"params\":{\"type\":\"object\",\"description\":\"Action-specific parameters. UFO-style canonical args: select_application_window(id,name), set_edit_text(id,name,text), keyboard_input(id,name,keys,control_focus), wheel_mouse_input(id,name,wheel_dist), click_input(id,name,button,double), texts(id,name). For control actions use exact id + exact name. For control/window collectors pass field_list (string[]). For launch_application use one of: command | application_path | app_path | executable | app_name | bash_command, but only for non-browser apps. Browser launch/navigation is forbidden here and must use tool=browser. Optional: args (string[]), cwd. Compatibility: select_application_window also accepts window_id/hwnd; keyboard_input also accepts text as alias of keys.\"}},\"required\":[\"action\"]}",
        RuntimeTool::ImageProbe => "{\"type\":\"object\",\"properties\":{\"path\":{\"type\":\"string\"},\"url\":{\"type\":\"string\"}}}",
        RuntimeTool::ImageUnderstand => "{\"type\":\"object\",\"properties\":{\"prompt\":{\"type\":\"string\",\"description\":\"Question or instruction for the image.\"},\"path\":{\"type\":\"string\",\"description\":\"Workspace-relative or absolute path inside workspace root.\"},\"url\":{\"type\":\"string\",\"description\":\"Public http/https URL or data:image/... URL.\"},\"model\":{\"type\":\"string\",\"description\":\"Vision model name. Default glm-4.6v.\"},\"thinking\":{\"type\":\"boolean\",\"description\":\"Enable model thinking mode when supported.\"},\"max_bytes\":{\"type\":\"integer\",\"description\":\"Max local image bytes. Default 4MB, max 8MB.\"}},\"required\":[\"prompt\"]}",
        RuntimeTool::SessionsList => "{\"type\":\"object\",\"properties\":{\"limit\":{\"type\":\"integer\"}}}",
        RuntimeTool::SessionsHistory => "{\"type\":\"object\",\"properties\":{\"conversation_id\":{\"type\":\"string\"},\"limit\":{\"type\":\"integer\"}},\"required\":[\"conversation_id\"]}",
        RuntimeTool::SessionsSend => "{\"type\":\"object\",\"properties\":{\"conversation_id\":{\"type\":\"string\"},\"content\":{\"type\":\"string\"},\"run_assistant\":{\"type\":\"boolean\"},\"model\":{\"type\":\"string\"}},\"required\":[\"conversation_id\",\"content\"]}",
        RuntimeTool::SessionsSpawn => "{\"type\":\"object\",\"properties\":{\"title\":{\"type\":\"string\"},\"content\":{\"type\":\"string\"},\"model\":{\"type\":\"string\"},\"run_assistant\":{\"type\":\"boolean\"}},\"required\":[\"title\"]}",
        RuntimeTool::AgentsList => "{\"type\":\"object\",\"properties\":{}}",
        _ => {
            proof {
                reveal_strlit("");
            }
            ""
        },
    }
}

/// An entry of the tool catalog: the name the model calls, and what it runs.
pub struct CatalogEntry {
    pub name: String,
    pub tool: RuntimeTool,
    /// What the model is told the tool does.
    pub description: String,
    /// The JSON schema of the tool's parameters, as JSON text.
    pub parameters: String,
}

/// A tool an MCP server offers: its server, name and description, and the
/// JSON text of its input schema when that is an object.
#[derive(Debug, Clone)]
pub struct McpToolInfo {
    pub server: String,
    pub name: String,
    pub description: String,
    pub input_schema: Option<String>,
}

/// The schema of an MCP tool whose input schema is not an object.
pub open spec fn empty_object_schema() -> Seq<char> {
    "{\"properties\":{},\"type\":\"object\"}"@
}

/// The entry offers a built-in tool under its name.
pub open spec fn is_builtin_entry(e: CatalogEntry, t: RuntimeTool, root: Seq<char>) -> bool {
    &&& e.tool == t
    &&& builtin_tool_name(t) matches Some(n) && e.name@ == n
    &&& e.description@ == builtin_description(t, root)
    &&& e.parameters@ == builtin_parameters(t)
}

/// The entry offers a server's MCP tool.
pub open spec fn is_mcp_entry(e: CatalogEntry, info: McpToolInfo) -> bool {
    &&& e.tool matches RuntimeTool::Mcp { server_name, tool_name } && server_name@ == info.server@ && tool_name@ == info.name@
    &&& e.description@ == (if info.description@.len() == 0 {
        "MCP tool "@ + info.name@ + " from "@ + info.server@
    } else {
        info.description@
    })
    &&& e.parameters@ == match info.input_schema {
        Some(schema) => schema@,
        None => empty_object_schema(),
    }
}

/// The names of the `m` entries from `start` on.
pub open spec fn entry_names(entries: Seq<CatalogEntry>, start: int, m: int) -> Seq<Seq<char>> {
    Seq::new(m as nat, |j: int| entries[start + j].name@)
}

/// The name an MCP tool is first offered under: `mcp__<server>__<tool>`.
pub open spec fn mcp_base_name(server: Seq<char>, tool: Seq<char>) -> Seq<char> {
    "mcp__"@ + server + "__"@ + tool
}

/// The catalog: the workspace tools, then the MCP tools (each under the
/// name `crate::catalog::mcp_tool_aliases` gives it), then the skill tools,
/// then the core tools (see `core_catalog_tools`). `mcp_tools` holds each
/// MCP tool's server and name.
pub open spec fn catalog_shape(entries: Seq<CatalogEntry>, mcp_tools: Seq<McpToolInfo>, desktop_supported: bool, root: Seq<char>) -> bool {
    let w = workspace_catalog_tools().len() as int;
    let m = mcp_tools.len() as int;
    let k = skill_catalog_tools().len() as int;
    &&& entries.len() == w + m + k + core_catalog_tools(desktop_supported).len()
    &&& forall|i: int| 0 <= i < w ==> #[trigger] is_builtin_entry(entries[i], workspace_catalog_tools()[i], root)
    &&& forall|i: int| 0 <= i < m ==> is_mcp_entry(#[trigger] entries[w + i], mcp_tools[i])
    &&& forall|i: int| 0 <= i < m ==> #[trigger] crate::catalog::is_first_free_alias(
        entries[w + i].name@,
        mcp_base_name(mcp_tools[i].server@, mcp_tools[i].name@),
        entry_names(entries, w, m).take(i),
    )
    &&& forall|i: int| 0 <= i < k ==> #[trigger] is_builtin_entry(entries[w + m + i], skill_catalog_tools()[i], root)
    &&& forall|i: int| 0 <= i < core_catalog_tools(desktop_supported).len() ==> #[trigger] is_builtin_entry(entries[w + m + k + i], core_catalog_tools(desktop_supported)[i], root)
}

/// Appends an entry for each built-in tool, in order.
fn push_builtin_entries(out: &mut Vec<CatalogEntry>, tools: Vec<RuntimeTool>, root: &str)
    requires
        forall|i: int| 0 <= i < tools@.len() ==> #[trigger] builtin_tool_name(tools@[i]) is Some,
    ensures
        final(out)@.len() == old(out)@.len() + tools@.len(),
        forall|i: int| 0 <= i < old(out)@.len() ==> #[trigger] final(out)@[i] == old(out)@[i],
        forall|i: int| 0 <= i < tools@.len() ==> #[trigger] is_builtin_entry(final(out)@[old(out)@.len() + i], tools@[i], root@),
{
    let ghost start = out@;
    let ghost all = tools@;
    let n = tools.len();
    let mut rest = tools;
    let mut done: usize = 0;
    assert(all.skip(0) =~= all);
    while rest.len() > 0
        invariant
            done <= all.len(),
            all.len() == n,
            rest@ == all.skip(done as int),
            out@.len() == start.len() + done,
            forall|i: int| 0 <= i < all.len() ==> #[trigger] builtin_tool_name(all[i]) is Some,
            forall|i: int| 0 <= i < start.len() ==> #[trigger] out@[i] == start[i],
            forall|i: int| 0 <= i < done ==> #[trigger] is_builtin_entry(out@[start.len() + i], all[i], root@),
        decreases rest@.len(),
    {
        let t = rest.remove(0);
        assert(t == all[done as int]);
        let name = match builtin_name_of(&t) {
            Some(n) => n,
            None => {
                assert(false);
                ""
            },
        };
        let ghost before = out@;
        let description = builtin_description_of(&t, root);
        let parameters = owned(builtin_parameters_of(&t));
        out.push(CatalogEntry { name: owned(name), tool: t, description, parameters });
        assert(rest@ =~= all.skip(done as int + 1));
        proof {
            assert forall|i: int| 0 <= i < done + 1 implies #[trigger] is_builtin_entry(out@[start.len() + i], all[i], root@) by {
                if i < done {
                    assert(out@[start.len() + i] == before[start.len() + i]);
                }
            }
        }
        done = done + 1;
    }
}

/// The server and name of each MCP tool.
fn server_tool_pairs(tools: &Vec<McpToolInfo>) -> (r: Vec<(String, String)>)
    ensures
        r@.len() == tools@.len(),
        forall|i: int| 0 <= i < r@.len() ==> #[trigger] r@[i].0@ == tools@[i].server@ && r@[i].1@ == tools@[i].name@,
{
    let mut out: Vec<(String, String)> = Vec::new();
    let mut i: usize = 0;
    while i < tools.len()
        invariant
            i <= tools@.len(),
            out@.len() == i,
            forall|j: int| 0 <= j < i ==> #[trigger] out@[j].0@ == tools@[j].server@ && out@[j].1@ == tools@[j].name@,
        decreases tools@.len() - i,
    {
        out.push((owned(tools[i].server.as_str()), owned(tools[i].name.as_str())));
        i += 1;
    }
    out
}

/// The tool catalog (see `catalog_shape`).
pub fn runtime_tool_catalog(mcp_tools: &Vec<McpToolInfo>, desktop_supported: bool, workspace_root: &str) -> (r: Vec<CatalogEntry>)
    ensures
        catalog_shape(r@, mcp_tools@, desktop_supported, workspace_root@),
{
    let mut out: Vec<CatalogEntry> = Vec::new();
    let ws = workspace_catalog_order();
    proof { lemma_catalog_lists_builtin(desktop_supported); }
    push_builtin_entries(&mut out, ws, workspace_root);
    let w = out.len();
    proof {
        assert forall|j: int| 0 <= j < w implies #[trigger] is_builtin_entry(out@[j], workspace_catalog_tools()[j], workspace_root@) by {
            assert(is_builtin_entry(out@[0 + j], workspace_catalog_tools()[j], workspace_root@));
        }
    }
    let pairs = server_tool_pairs(mcp_tools);
    let aliases = crate::catalog::mcp_tool_aliases(&pairs);
    let ghost names = crate::text::string_views(aliases@);
    let mut i: usize = 0;
    while i < aliases.len()
        invariant
            w == workspace_catalog_tools().len(),
            aliases@.len() == mcp_tools@.len(),
            pairs@.len() == mcp_tools@.len(),
            names == crate::text::string_views(aliases@),
            i <= aliases@.len(),
            out@.len() == w + i,
            forall|j: int| 0 <= j < w ==> #[trigger] is_builtin_entry(out@[j], workspace_catalog_tools()[j], workspace_root@),
            forall|j: int| 0 <= j < i ==> is_mcp_entry(#[trigger] out@[w + j], mcp_tools@[j]),
            forall|j: int| 0 <= j < i ==> #[trigger] out@[w + j].name@ == names[j],
        decreases aliases@.len() - i,
    {
        let ghost before = out@;
        let info = &mcp_tools[i];
        let description = crate::catalog::mcp_tool_description(info.description.as_str(), info.name.as_str(), info.server.as_str());
        let parameters = match &info.input_schema {
            Some(schema) => owned(schema.as_str()),
            None => owned("{\"properties\":{},\"type\":\"object\"}"),
        };
        let entry = CatalogEntry {
            name: owned(aliases[i].as_str()),
            tool: RuntimeTool::Mcp { server_name: owned(info.server.as_str()), tool_name: owned(info.name.as_str()) },
            description,
            parameters,
        };
        out.push(entry);
        proof {
            assert forall|j: int| 0 <= j < w implies #[trigger] is_builtin_entry(out@[j], workspace_catalog_tools()[j], workspace_root@) by {
                assert(out@[j] == before[j]);
            }
            assert forall|j: int| 0 <= j < i + 1 implies is_mcp_entry(#[trigger] out@[w + j], mcp_tools@[j]) by {
                if j < i {
                    assert(out@[w + j] == before[w + j]);
                }
            }
            assert forall|j: int| 0 <= j < i + 1 implies #[trigger] out@[w + j].name@ == names[j] by {
                if j < i {
                    assert(out@[w + j] == before[w + j]);
                }
            }
        }
        i = i + 1;
    }
    let ghost mid = out@;
    let m = aliases.len();
    proof {
        assert(entry_names(mid, w as int, m as int) =~= names);
    }
    push_builtin_entries(&mut out, skill_catalog_order(), workspace_root);
    let ghost mid2 = out@;
    push_builtin_entries(&mut out, core_catalog_order(desktop_supported), workspace_root);
    proof {
        let wi = w as int;
        let mi = m as int;
        let k = skill_catalog_tools().len() as int;
        assert(entry_names(out@, wi, mi) =~= names) by {
            assert forall|j: int| 0 <= j < mi implies entry_names(out@, wi, mi)[j] == names[j] by {
                assert(out@[wi + j] == mid2[wi + j]);
                assert(mid2[wi + j] == mid[wi + j]);
            }
        }
        assert forall|j: int| 0 <= j < wi implies #[trigger] is_builtin_entry(out@[j], workspace_catalog_tools()[j], workspace_root@) by {
            assert(out@[j] == mid2[j]);
            assert(mid2[j] == mid[j]);
        }
        assert forall|j: int| 0 <= j < mi implies is_mcp_entry(#[trigger] out@[wi + j], mcp_tools@[j]) by {
            assert(out@[wi + j] == mid2[wi + j]);
            assert(mid2[wi + j] == mid[wi + j]);
        }
        assert forall|j: int| 0 <= j < mi implies #[trigger] crate::catalog::is_first_free_alias(
            out@[wi + j].name@,
            mcp_base_name(mcp_tools@[j].server@, mcp_tools@[j].name@),
            entry_names(out@, wi, mi).take(j),
        ) by {
            assert(out@[wi + j] == mid2[wi + j]);
            assert(mid2[wi + j] == mid[wi + j]);
            assert(crate::catalog::is_first_free_alias(
                aliases@[j]@,
                "mcp__"@ + pairs@[j].0@ + "__"@ + pairs@[j].1@,
                crate::text::string_views(aliases@).take(j),
            ));
            assert("mcp__"@ + mcp_tools@[j].server@ + "__"@ + mcp_tools@[j].name@ == mcp_base_name(mcp_tools@[j].server@, mcp_tools@[j].name@));
        }
        assert forall|j: int| 0 <= j < k implies #[trigger] is_builtin_entry(out@[wi + mi + j], skill_catalog_tools()[j], workspace_root@) by {
            assert(out@[wi + mi + j] == mid2[wi + mi + j]);
        }
    }
    out
}

/// The three lists of the catalog hold built-in tools only.
proof fn lemma_catalog_lists_builtin(desktop_supported: bool)
    ensures
        forall|i: int| 0 <= i < workspace_catalog_tools().len() ==> #[trigger] builtin_tool_name(workspace_catalog_tools()[i]) is Some,
        forall|i: int| 0 <= i < skill_catalog_tools().len() ==> #[trigger] builtin_tool_name(skill_catalog_tools()[i]) is Some,
        forall|i: int| 0 <= i < core_catalog_tools(desktop_supported).len() ==> #[trigger] builtin_tool_name(core_catalog_tools(desktop_supported)[i]) is Some,
{
    assert forall|i: int| 0 <= i < workspace_catalog_tools().len() implies #[trigger] builtin_tool_name(workspace_catalog_tools()[i]) is Some by {
        assert(workspace_catalog_tools()[i] !is Mcp);
    }
    assert forall|i: int| 0 <= i < skill_catalog_tools().len() implies #[trigger] builtin_tool_name(skill_catalog_tools()[i]) is Some by {
        assert(skill_catalog_tools()[i] !is Mcp);
    }
    assert forall|i: int| 0 <= i < core_catalog_tools(desktop_supported).len() implies #[trigger] builtin_tool_name(core_catalog_tools(desktop_supported)[i]) is Some by {
        assert(core_catalog_tools(desktop_supported)[i] !is Mcp);
    }
}

/// The position of the entry a name finds, as a map filled in catalog
/// order finds it: the last entry under that name.
pub fn catalog_lookup(entries: &Vec<CatalogEntry>, name: &str) -> (r: Option<usize>)
    ensures
        match r {
            Some(p) => p < entries@.len() && entries@[p as int].name@ == name@
                && forall|q: int| p < q < entries@.len() ==> #[trigger] entries@[q].name@ != name@,
            None => forall|q: int| 0 <= q < entries@.len() ==> #[trigger] entries@[q].name@ != name@,
        },
{
    let mut i: usize = entries.len();
    while i > 0
        invariant
            i <= entries@.len(),
            forall|q: int| i <= q < entries@.len() ==> #[trigger] entries@[q].name@ != name@,
        decreases i,
    {
        if str_eq(entries[i - 1].name.as_str(), name) {
            return Some(i - 1);
        }
        i = i - 1;
    }
    None
}

/// What an entry's name tells: an MCP tool's name starts with `m`; a
/// built-in tool's name does not, and calls that tool.
proof fn lemma_catalog_entry_class(entries: Seq<CatalogEntry>, mcp_tools: Seq<McpToolInfo>, desktop_supported: bool, root: Seq<char>, p: int)
    requires
        catalog_shape(entries, mcp_tools, desktop_supported, root),
        0 <= p < entries.len(),
    ensures
        entries[p].name@.len() > 0,
        entries[p].tool is Mcp ==> entries[p].name@[0] == 'm',
        entries[p].tool !is Mcp ==> entries[p].name@[0] != 'm' && tool_for_name(entries[p].name@) == Some(entries[p].tool),
        (workspace_catalog_tools().len() <= p < workspace_catalog_tools().len() + mcp_tools.len()) <==> entries[p].tool is Mcp,
{
    let w = workspace_catalog_tools().len() as int;
    let m = mcp_tools.len() as int;
    let k = skill_catalog_tools().len() as int;
    if w <= p < w + m {
        let i = p - w;
        assert(is_mcp_entry(entries[w + i], mcp_tools[i]));
        let base = mcp_base_name(mcp_tools[i].server@, mcp_tools[i].name@);
        assert(crate::catalog::is_first_free_alias(entries[w + i].name@, base, entry_names(entries, w, m).take(i)));
        reveal_strlit("mcp__");
        assert(base[0] == 'm');
        let a = entries[p].name@;
        if a != base {
            let kk = choose|kk: nat| kk >= 1 && a == #[trigger] crate::catalog::numbered_alias(base, kk)
                && entry_names(entries, w, m).take(i).contains(base)
                && !entry_names(entries, w, m).take(i).contains(crate::catalog::numbered_alias(base, kk))
                && (forall|j: nat| 1 <= j < kk ==> entry_names(entries, w, m).take(i).contains(#[trigger] crate::catalog::numbered_alias(base, j)));
            assert(a[0] == base[0]);
        }
    } else {
        let t = if p < w {
            assert(is_builtin_entry(entries[p], workspace_catalog_tools()[p], root));
            workspace_catalog_tools()[p]
        } else if p < w + m + k {
            assert(is_builtin_entry(entries[w + m + (p - w - m)], skill_catalog_tools()[p - w - m], root));
            skill_catalog_tools()[p - w - m]
        } else {
            assert(is_builtin_entry(entries[w + m + k + (p - w - m - k)], core_catalog_tools(desktop_supported)[p - w - m - k], root));
            core_catalog_tools(desktop_supported)[p - w - m - k]
        };
        assert(is_builtin_entry(entries[p], t, root));
        lemma_builtin_name_not_mcp(t);
        lemma_tool_names_round_trip(t);
    }
}

/// The catalog never offers two different tools under one name, so a name
/// finds the same tool whichever of its entries a lookup lands on.
pub proof fn lemma_catalog_names_unambiguous(entries: Seq<CatalogEntry>, mcp_tools: Seq<McpToolInfo>, desktop_supported: bool, root: Seq<char>)
    requires
        catalog_shape(entries, mcp_tools, desktop_supported, root),
    ensures
        forall|p: int, q: int| #![trigger entries[p], entries[q]]
            0 <= p < entries.len() && 0 <= q < entries.len() && entries[p].name@ == entries[q].name@
                ==> entries[p].tool == entries[q].tool,
{
    let w = workspace_catalog_tools().len() as int;
    let m = mcp_tools.len() as int;
    let names = entry_names(entries, w, m);
    let bases = Seq::new(m as nat, |i: int| mcp_base_name(mcp_tools[i].server@, mcp_tools[i].name@));
    assert forall|i: int| 0 <= i < names.len() implies #[trigger] crate::catalog::is_first_free_alias(names[i], bases[i], names.take(i)) by {
        assert(crate::catalog::is_first_free_alias(entries[w + i].name@, mcp_base_name(mcp_tools[i].server@, mcp_tools[i].name@), names.take(i)));
    }
    crate::catalog::lemma_aliases_distinct(names, bases);
    assert forall|p: int, q: int| #![trigger entries[p], entries[q]]
        0 <= p < entries.len() && 0 <= q < entries.len() && entries[p].name@ == entries[q].name@
            implies entries[p].tool == entries[q].tool by {
        lemma_catalog_entry_class(entries, mcp_tools, desktop_supported, root, p);
        lemma_catalog_entry_class(entries, mcp_tools, desktop_supported, root, q);
        if entries[p].tool is Mcp && entries[q].tool is Mcp && p != q {
            assert(names[p - w] == entries[p].name@);
            assert(names[q - w] == entries[q].name@);
            if p < q {
                assert(names[p - w] != names[q - w]);
            } else {
                assert(names[q - w] != names[p - w]);
            }
        }
    }
}

/// A call of `bash` finds the shell-command tool in every catalog: the
/// catalog offers it under the name the call is looked up under, and every
/// entry under that name runs it.
pub proof fn lemma_bash_call_runs_shell(entries: Seq<CatalogEntry>, mcp_tools: Seq<McpToolInfo>, desktop_supported: bool, root: Seq<char>, raw: Seq<char>)
    requires
        catalog_shape(entries, mcp_tools, desktop_supported, root),
    ensures
        exists|p: int| 0 <= p < entries.len() && #[trigger] entries[p].name@ == crate::catalog::call_target("bash"@, raw).0,
        forall|p: int| 0 <= p < entries.len() && #[trigger] entries[p].name@ == crate::catalog::call_target("bash"@, raw).0
            ==> entries[p].tool == RuntimeTool::WorkspaceRunCommand,
{
    assert(is_builtin_entry(entries[9], workspace_catalog_tools()[9], root));
    assert(entries[9].name@ == crate::catalog::call_target("bash"@, raw).0);
    lemma_catalog_names_unambiguous(entries, mcp_tools, desktop_supported, root);
    assert forall|p: int| 0 <= p < entries.len() && #[trigger] entries[p].name@ == crate::catalog::call_target("bash"@, raw).0
        implies entries[p].tool == RuntimeTool::WorkspaceRunCommand by {
        assert(entries[p].name@ == entries[9].name@);
    }
}

/// What one call of a `core_batch` reports: its position, its tool, and
/// the tool's result or error (as JSON text and as text).
#[derive(Debug, Clone)]
pub struct BatchOutcome {
    pub index: usize,
    pub tool: String,
    pub result: Option<String>,
    pub error: Option<String>,
}

pub open spec fn not_allowed_in_batch_message() -> Seq<char> {
    "Tool is not allowed in core_batch"@
}

/// The report of a batch call after its step (see `check_batch_call`): a
/// tool that may not run reports so; one that ran reports its result or
/// its error. `ran` is what running the tool gave, for a tool that ran.
pub fn batch_outcome(index: usize, step: BatchStep, ran: Option<Result<String, String>>) -> (r: BatchOutcome)
    requires
        step is Run ==> ran is Some,
    ensures
        r.index == index,
        match step {
            BatchStep::NotAllowed { tool } => r.tool@ == tool@ && r.result is None
                && (r.error matches Some(e) && e@ == not_allowed_in_batch_message()),
            BatchStep::Run { tool } => r.tool@ == tool@ && match ran {
                Some(Ok(v)) => (r.result matches Some(x) && x@ == v@) && r.error is None,
                Some(Err(e)) => r.result is None && (r.error matches Some(x) && x@ == e@),
                None => false,
            },
        },
{
    match step {
        BatchStep::NotAllowed { tool } => BatchOutcome {
            index,
            tool,
            result: None,
            error: Some(owned("Tool is not allowed in core_batch")),
        },
        BatchStep::Run { tool } => match ran {
            Some(Ok(v)) => BatchOutcome { index, tool, result: Some(v), error: None },
            Some(Err(e)) => BatchOutcome { index, tool, result: None, error: Some(e) },
            None => BatchOutcome { index, tool, result: None, error: None },
        },
    }
}
} // verus!
