//! Data shared with the user interface: skills, files, accounts and the
//! events of a conversation's timeline; and where the Node.js runtime that
//! skills and the browser sidecar need is found.

use vstd::prelude::*;
use crate::text::{owned, str_eq, chars_of, string_of, push_all};

verus! {

/// The kind of script a skill runs.
#[derive(Debug, Clone, Copy, PartialEq, Eq, Structural)]
pub enum SkillType {
    Rust,
    JavaScript,
    Markdown,
}

/// An installed skill.
#[derive(Debug, Clone)]
pub struct Skill {
    pub id: String,
    pub name: String,
    pub version: String,
    pub description: String,
    pub author: String,
    pub enabled: bool,
    /// When it was installed.
    pub installed_at: crate::scheduler::schedule::Timestamp,
    pub script_type: SkillType,
}

/// The manifest of an installed skill.
#[derive(Debug, Clone)]
pub struct SkillManifest {
    pub id: Option<String>,
    pub name: String,
    pub version: String,
    pub description: String,
    pub author: String,
    pub entry_point: String,
    pub permissions: Vec<String>,
    pub dependencies: Option<Vec<String>>,
}

/// The entry point of a skill whose manifest names none.
pub fn default_entry_point() -> (r: String)
    ensures
        r@ == "index.js"@,
{
    owned("index.js")
}

/// A skill offered by a skill directory.
#[derive(Debug, Clone)]
pub struct SkillDiscoveryItem {
    pub id: String,
    pub name: String,
    pub description: String,
    pub repo_url: String,
    pub repo_full_name: String,
    pub repo_html_url: String,
    pub source: String,
    pub skill_path: Option<String>,
    pub stars: u64,
    pub updated_at: Option<String>,
    pub installed: bool,
}

/// A file or directory shown to the user.
#[derive(Debug, Clone)]
pub struct FileInfo {
    pub name: String,
    pub path: String,
    pub is_dir: bool,
    pub size: Option<u64>,
    pub extension: Option<String>,
}

/// The answer of the account service to a sign-in.
#[derive(Debug, Clone)]
pub struct LoginResponse {
    pub access_token: String,
    pub token_type: String,
    pub user_id: String,
    pub username: String,
    pub email: String,
}

/// The kind of an event in a conversation's timeline.
#[derive(Debug, Clone, Copy, PartialEq, Eq, Structural)]
pub enum TimelineEventType {
    UserMessage,
    AssistantReasoning,
    AssistantToolCall,
    AssistantToolResult,
    AssistantText,
}

/// The stored name of a timeline event kind.
pub open spec fn timeline_event_name(t: TimelineEventType) -> Seq<char> {
    match t {
        TimelineEventType::UserMessage => "user_message"@,
        TimelineEventType::AssistantReasoning => "assistant_reasoning"@,
        TimelineEventType::AssistantToolCall => "assistant_tool_call"@,
        TimelineEventType::AssistantToolResult => "assistant_tool_result"@,
        TimelineEventType::AssistantText => "assistant_text"@,
    }
}

/// The kind of a stored timeline event; any unknown name is assistant text.
pub open spec fn timeline_event_named(raw: Seq<char>) -> TimelineEventType {
    if raw == "user_message"@ {
        TimelineEventType::UserMessage
    } else if raw == "assistant_reasoning"@ {
        TimelineEventType::AssistantReasoning
    } else if raw == "assistant_tool_call"@ {
        TimelineEventType::AssistantToolCall
    } else if raw == "assistant_tool_result"@ {
        TimelineEventType::AssistantToolResult
    } else {
        TimelineEventType::AssistantText
    }
}

/// Reads the kind of a stored timeline event.
pub fn parse_timeline_event_type(raw: &str) -> (r: TimelineEventType)
    ensures
        r == timeline_event_named(raw@),
{
    if str_eq(raw, "user_message") {
        TimelineEventType::UserMessage
    } else if str_eq(raw, "assistant_reasoning") {
        TimelineEventType::AssistantReasoning
    } else if str_eq(raw, "assistant_tool_call") {
        TimelineEventType::AssistantToolCall
    } else if str_eq(raw, "assistant_tool_result") {
        TimelineEventType::AssistantToolResult
    } else {
        TimelineEventType::AssistantText
    }
}

/// The name of each event kind reads back as that kind.
pub proof fn lemma_timeline_names_round_trip(t: TimelineEventType)
    ensures
        timeline_event_named(timeline_event_name(t)) == t,
{
    reveal_strlit("user_message");
    reveal_strlit("assistant_reasoning");
    reveal_strlit("assistant_tool_call");
    reveal_strlit("assistant_tool_result");
    reveal_strlit("assistant_text");
    assert("assistant_reasoning"@.len() != "user_message"@.len());
    assert("assistant_tool_call"@.len() != "user_message"@.len());
    assert("assistant_tool_result"@.len() != "user_message"@.len());
    assert("assistant_text"@.len() != "user_message"@.len());
    assert("assistant_tool_call"@[10] != "assistant_reasoning"@[10]);
    assert("assistant_tool_result"@.len() != "assistant_reasoning"@.len());
    assert("assistant_text"@.len() != "assistant_reasoning"@.len());
    assert("assistant_tool_result"@.len() != "assistant_tool_call"@.len());
    assert("assistant_text"@.len() != "assistant_tool_call"@.len());
    assert("assistant_text"@.len() != "assistant_tool_result"@.len());
}

/// How Node.js is run: the command, and the directory to put first on the
/// search path when it is not the system's `node`.
#[derive(Debug, Clone)]
pub struct NodeRuntime {
    pub node_command: String,
    pub bin_dir: Option<String>,
}

/// The file name of the Node.js executable on a platform.
pub fn node_executable_name(on_windows: bool) -> (r: &'static str)
    ensures
        r@ == if on_windows { "node.exe"@ } else { "node"@ },
{
    if on_windows {
        "node.exe"
    } else {
        "node"
    }
}

/// Where the managed Node.js executable lies below the runtime's `current`
/// directory: `node.exe` on Windows, `bin/node` elsewhere (with `/` as the
/// separator the caller joins with).
pub fn managed_node_executable(current_dir: &str, on_windows: bool) -> (r: String)
    ensures
        r@ == current_dir@ + if on_windows { "/node.exe"@ } else { "/bin/node"@ },
{
    let mut out = chars_of(current_dir);
    let tail = if on_windows { chars_of("/node.exe") } else { chars_of("/bin/node") };
    push_all(&mut out, tail.as_slice());
    string_of(out.as_slice())
}

/// Which Node.js to use: the system's `node` when it runs; else the
/// managed one when it exists and runs, with its directory on the search
/// path; else none. `managed` is the managed executable's path (when the
/// runtime directory could be prepared) and its directory, and the flags
/// tell whether each candidate exists and answers `node -v`.
pub fn detect_available_node_runtime(
    system_node_runs: bool,
    managed: Option<(String, Option<String>)>,
    managed_exists: bool,
    managed_runs: bool,
) -> (r: Option<NodeRuntime>)
    ensures
        system_node_runs ==> (r matches Some(n) && n.node_command@ == "node"@ && n.bin_dir is None),
        !system_node_runs ==> match managed {
            Some((path, parent)) => if managed_exists && managed_runs {
                r matches Some(n) && n.node_command == path && n.bin_dir == parent
            } else {
                r is None
            },
            None => r is None,
        },
{
    if system_node_runs {
        return Some(NodeRuntime { node_command: owned("node"), bin_dir: None });
    }
    match managed {
        Some((path, parent)) => {
            if !managed_exists || !managed_runs {
                return None;
            }
            Some(NodeRuntime { node_command: path, bin_dir: parent })
        },
        None => None,
    }
}

} // verus!
