//! One turn of the agent: the model answers, asks for tools, gets their
//! results, and answers again, until it answers without tools, repeats
//! itself, or the user pauses it.
//!
//! The caller streams the model's answers, asks the user, runs the tools
//! and stores the messages; this state machine decides what happens with
//! each answer and each tool call, and keeps the conversation that is sent
//! back to the model.

use vstd::prelude::*;
use crate::text::{chars_of, string_of, owned, push_all, trim_seq, trim_chars, opt_view, trimmed_present, trim_present, str_eq};
use crate::llm::{
    ChatMessage, ChatToolCall, ChatReasoningDetail, LlmStreamResult, reasoning_details_from_text,
    build_tool_round_signature, round_signature, is_plain_message, is_text_reasoning_detail,
};
use crate::agent::{update_repeated_signature_rounds, repeated_tool_guard_text};
use crate::permissions::{ToolApprovalDecision, names_contain};

verus! {

pub open spec fn empty_content_message() -> Seq<char> {
    "Background run content cannot be empty"@
}

/// The text of a background run: the requested content, trimmed; it may
/// not be blank.
pub fn background_run_content(content: &str) -> (r: Result<String, String>)
    ensures
        trim_seq(content@).len() > 0 ==> (r matches Ok(s) && s@ == trim_seq(content@)),
        trim_seq(content@).len() == 0 ==> (r matches Err(e) && e@ == empty_content_message()),
{
    let cs = chars_of(content);
    let t = trim_chars(cs.as_slice());
    if t.len() == 0 {
        return Err(owned("Background run content cannot be empty"));
    }
    Ok(string_of(t.as_slice()))
}

/// The JSON text `serde_json::to_string_pretty` gives of an object with one
/// string field `error`.
pub uninterp spec fn pretty_error_json(message: Seq<char>) -> Seq<char>;

/// Serialises `{"error": message}` with `serde_json::to_string_pretty`. The
/// text depends on the message alone; it is named `pretty_error_json`.
/// Serialising one string field cannot fail; were it to, the text would be
/// empty.
#[verifier::external_body]
pub fn format_tool_error_result(error_text: &str) -> (r: String)
    ensures
        r@ == pretty_error_json(error_text@),
{
    let mut fields = serde_json::Map::new();
    fields.insert("error".to_string(), serde_json::Value::String(error_text.to_string()));
    serde_json::to_string_pretty(&serde_json::Value::Object(fields)).unwrap_or_default()
}

/// The message that carries a tool's result back to the model.
pub open spec fn is_tool_result_message(m: ChatMessage, call_id: Seq<char>, text: Seq<char>) -> bool {
    &&& m.role@ == "tool"@
    &&& m.content matches Some(c) && c@ == text
    &&& m.tool_calls is None
    &&& m.tool_call_id matches Some(id) && id@ == call_id
    &&& m.reasoning_details is None
    &&& m.reasoning is None
}

/// Adds a tool's result to the conversation.
pub fn push_background_tool_result_message(context_messages: &mut Vec<ChatMessage>, tool_call: &ChatToolCall, result_text: String)
    ensures
        final(context_messages)@.drop_last() == old(context_messages)@,
        final(context_messages)@.len() == old(context_messages)@.len() + 1,
        is_tool_result_message(final(context_messages)@.last(), tool_call.id@, result_text@),
{
    let ghost before = context_messages@;
    context_messages.push(ChatMessage {
        role: owned("tool"),
        content: Some(result_text),
        tool_calls: None,
        tool_call_id: Some(tool_call.id.clone()),
        reasoning_details: None,
        reasoning: None,
    });
    assert(context_messages@.drop_last() =~= before);
}

/// The reasoning of an answer, unless it is blank.
pub open spec fn answer_reasoning(r: LlmStreamResult) -> Option<Seq<char>> {
    if trim_seq(r.reasoning@).len() == 0 {
        None
    } else {
        Some(r.reasoning@)
    }
}

/// What happens after the model's answer.
#[derive(Debug)]
pub enum ReplyOutcome {
    /// The user paused the turn; this is the text to store as the answer.
    Paused { content: String },
    /// The model answered without tools: the turn is over.
    Finished { content: String, reasoning: Option<String> },
    /// The model asked for the same tools as in the last two rounds: the
    /// turn is stopped with the guard text.
    GuardStopped,
    /// Run these tool calls, in order.
    RunTools(Vec<ChatToolCall>),
}

/// The text stored for an answer paused before it said anything.
pub open spec fn paused_text() -> Seq<char> {
    "（已暂停）"@
}

/// What the tool loop of a turn remembers.
pub struct AgentTurn {
    pub messages: Vec<ChatMessage>,
    pub always_allowed: Vec<String>,
    pub last_signature: Option<String>,
    pub repeated_rounds: usize,
    pub rounds: usize,
    pub tool_calls: usize,
    pub blocked_tools: usize,
}

impl AgentTurn {
    /// A turn that starts with the given conversation, to which the user's
    /// message is added.
    pub fn new(context: Vec<ChatMessage>, user_content: String) -> (r: Self)
        ensures
            r.messages@.drop_last() == context@,
            r.messages@.len() == context@.len() + 1,
            is_plain_message(r.messages@.last(), "user"@, user_content@),
            r.always_allowed@.len() == 0,
            r.last_signature is None,
            r.repeated_rounds == 0,
            r.rounds == 0,
            r.tool_calls == 0,
            r.blocked_tools == 0,
    {
        let mut messages = context;
        let ghost before = messages@;
        messages.push(ChatMessage {
            role: owned("user"),
            content: Some(user_content),
            tool_calls: None,
            tool_call_id: None,
            reasoning_details: None,
            reasoning: None,
        });
        assert(messages@.drop_last() =~= before);
        AgentTurn {
            messages,
            always_allowed: Vec::new(),
            last_signature: None,
            repeated_rounds: 0,
            rounds: 0,
            tool_calls: 0,
            blocked_tools: 0,
        }
    }

    /// A new round of the model starts.
    pub fn begin_round(&mut self)
        requires
            old(self).rounds < usize::MAX,
        ensures
            final(self).rounds == old(self).rounds + 1,
            final(self).messages == old(self).messages,
            final(self).always_allowed == old(self).always_allowed,
            final(self).last_signature == old(self).last_signature,
            final(self).repeated_rounds == old(self).repeated_rounds,
            final(self).tool_calls == old(self).tool_calls,
            final(self).blocked_tools == old(self).blocked_tools,
    {
        self.rounds = self.rounds + 1;
    }

    /// Takes the model's answer: a paused answer ends the turn (with the
    /// paused text when it said nothing); an answer without tool calls ends
    /// it; otherwise the calls are counted and the answer joins the
    /// conversation with them, and the turn stops when the same calls came
    /// back for the second round in a row, else the calls are to be run.
    pub fn on_reply(&mut self, result: LlmStreamResult) -> (r: ReplyOutcome)
        requires
            old(self).repeated_rounds < usize::MAX,
            old(self).tool_calls + result.tool_calls@.len() <= usize::MAX,
        ensures
            final(self).rounds == old(self).rounds,
            final(self).blocked_tools == old(self).blocked_tools,
            final(self).always_allowed == old(self).always_allowed,
            result.cancelled || result.tool_calls@.len() == 0 ==> final(self).last_signature == old(self).last_signature
                && final(self).repeated_rounds == old(self).repeated_rounds,
            result.cancelled ==> (r matches ReplyOutcome::Paused { content }
                && content@ == (if trim_seq(result.content@).len() == 0 { paused_text() } else { result.content@ })
                && final(self).messages == old(self).messages
                && final(self).tool_calls == old(self).tool_calls),
            !result.cancelled && result.tool_calls@.len() == 0 ==> (r matches ReplyOutcome::Finished { content, reasoning }
                && content@ == result.content@ && opt_view(reasoning) == answer_reasoning(result)
                && final(self).messages == old(self).messages
                && final(self).tool_calls == old(self).tool_calls),
            !result.cancelled && result.tool_calls@.len() > 0 ==> {
                &&& final(self).tool_calls == old(self).tool_calls + result.tool_calls@.len()
                &&& final(self).messages@.drop_last() == old(self).messages@
                &&& final(self).messages@.len() == old(self).messages@.len() + 1
                &&& final(self).messages@.last().role@ == "assistant"@
                &&& opt_view(final(self).messages@.last().content) == (if result.content@.len() == 0 {
                    None
                } else {
                    Some(result.content@)
                })
                &&& final(self).messages@.last().tool_calls matches Some(tc) && tc@ == result.tool_calls@
                &&& opt_view(final(self).messages@.last().reasoning) == answer_reasoning(result)
                &&& final(self).last_signature matches Some(sig) && sig@ == round_signature(result.tool_calls@)
                &&& final(self).repeated_rounds == crate::agent::repeats_after(
                    opt_view(old(self).last_signature), old(self).repeated_rounds as nat, round_signature(result.tool_calls@))
                &&& (final(self).repeated_rounds >= 2 <==> r is GuardStopped)
                &&& (final(self).repeated_rounds < 2 ==> r == ReplyOutcome::RunTools(result.tool_calls))
            },
    {
        let rc = chars_of(result.reasoning.as_str());
        let rt = trim_chars(rc.as_slice());
        let reasoning: Option<String> = if rt.len() == 0 { None } else { Some(result.reasoning.clone()) };
        if result.cancelled {
            let cc = chars_of(result.content.as_str());
            let ct = trim_chars(cc.as_slice());
            let content = if ct.len() == 0 { owned("（已暂停）") } else { result.content };
            return ReplyOutcome::Paused { content };
        }
        if result.tool_calls.len() == 0 {
            return ReplyOutcome::Finished { content: result.content, reasoning };
        }
        let details: Option<Vec<ChatReasoningDetail>> = match result.reasoning_details {
            Some(d) => Some(d),
            None => match &reasoning {
                Some(text) => reasoning_details_from_text(text.as_str()),
                None => None,
            },
        };
        self.tool_calls = self.tool_calls + result.tool_calls.len();
        let signature = build_tool_round_signature(result.tool_calls.as_slice());
        let calls = result.tool_calls;
        let content = if result.content.as_str().is_empty() { None } else { Some(result.content) };
        let ghost before = self.messages@;
        self.messages.push(ChatMessage {
            role: owned("assistant"),
            content,
            tool_calls: Some(clone_calls(&calls)),
            tool_call_id: None,
            reasoning_details: details,
            reasoning,
        });
        assert(self.messages@.drop_last() =~= before);
        let ghost sig = signature@;
        let ghost old_last = opt_view(self.last_signature);
        let ghost old_count = self.repeated_rounds as nat;
        update_repeated_signature_rounds(&mut self.last_signature, &mut self.repeated_rounds, signature);
        assert(self.repeated_rounds == crate::agent::repeats_after(old_last, old_count, sig));
        if self.repeated_rounds >= 2 {
            return ReplyOutcome::GuardStopped;
        }
        ReplyOutcome::RunTools(calls)
    }

    /// The user or the policy refused a tool call: the model is told so, as
    /// an error result, and a refusal in a background run is counted.
    pub fn record_denied(&mut self, tool_call: &ChatToolCall, error_text: &str, background: bool)
        requires
            background ==> old(self).blocked_tools < usize::MAX,
        ensures
            final(self).messages@.drop_last() == old(self).messages@,
            final(self).messages@.len() == old(self).messages@.len() + 1,
            is_tool_result_message(final(self).messages@.last(), tool_call.id@, pretty_error_json(error_text@)),
            final(self).blocked_tools == if background { old(self).blocked_tools + 1 } else { old(self).blocked_tools as int },
            final(self).always_allowed == old(self).always_allowed,
            final(self).rounds == old(self).rounds,
            final(self).tool_calls == old(self).tool_calls,
            final(self).repeated_rounds == old(self).repeated_rounds,
            final(self).last_signature == old(self).last_signature,
    {
        if background {
            self.blocked_tools = self.blocked_tools + 1;
        }
        let text = format_tool_error_result(error_text);
        push_background_tool_result_message(&mut self.messages, tool_call, text);
    }

    /// A tool may run; one allowed for the rest of the run is remembered.
    pub fn record_allowed(&mut self, tool_name: &str, decision: ToolApprovalDecision)
        ensures
            decision == ToolApprovalDecision::AllowAlways ==> names_contain(final(self).always_allowed@, tool_name@),
            decision == ToolApprovalDecision::AllowAlways && !names_contain(old(self).always_allowed@, tool_name@)
                ==> final(self).always_allowed@ == old(self).always_allowed@.push(final(self).always_allowed@.last())
                    && final(self).always_allowed@.last()@ == tool_name@,
            decision != ToolApprovalDecision::AllowAlways || names_contain(old(self).always_allowed@, tool_name@)
                ==> final(self).always_allowed == old(self).always_allowed,
            final(self).messages == old(self).messages,
            final(self).blocked_tools == old(self).blocked_tools,
            final(self).rounds == old(self).rounds,
            final(self).tool_calls == old(self).tool_calls,
            final(self).repeated_rounds == old(self).repeated_rounds,
            final(self).last_signature == old(self).last_signature,
    {
        if decision != ToolApprovalDecision::AllowAlways {
            return;
        }
        let mut i: usize = 0;
        while i < self.always_allowed.len()
            invariant
                i <= self.always_allowed.len(),
                self.always_allowed == old(self).always_allowed,
                forall|j: int| 0 <= j < i ==> self.always_allowed@[j]@ != tool_name@,
            decreases self.always_allowed.len() - i,
        {
            if crate::text::str_eq(self.always_allowed[i].as_str(), tool_name) {
                return;
            }
            i += 1;
        }
        let ghost before = self.always_allowed@;
        self.always_allowed.push(owned(tool_name));
        assert(self.always_allowed@.drop_last() =~= before);
        assert(self.always_allowed@[before.len() as int]@ == tool_name@);
    }

    /// A tool ran: its output, or its error as an error result, goes back
    /// to the model.
    pub fn record_tool_output(&mut self, tool_call: &ChatToolCall, output: Result<String, String>)
        ensures
            final(self).messages@.drop_last() == old(self).messages@,
            final(self).messages@.len() == old(self).messages@.len() + 1,
            is_tool_result_message(final(self).messages@.last(), tool_call.id@, match output {
                Ok(text) => text@,
                Err(e) => pretty_error_json(e@),
            }),
            final(self).always_allowed == old(self).always_allowed,
            final(self).blocked_tools == old(self).blocked_tools,
            final(self).rounds == old(self).rounds,
            final(self).tool_calls == old(self).tool_calls,
            final(self).repeated_rounds == old(self).repeated_rounds,
            final(self).last_signature == old(self).last_signature,
    {
        let text = match output {
            Ok(text) => text,
            Err(e) => format_tool_error_result(e.as_str()),
        };
        push_background_tool_result_message(&mut self.messages, tool_call, text);
    }
}

fn clone_calls(calls: &Vec<ChatToolCall>) -> (r: Vec<ChatToolCall>)
    ensures
        r@ == calls@,
{
    let mut out: Vec<ChatToolCall> = Vec::new();
    let mut i: usize = 0;
    while i < calls.len()
        invariant
            i <= calls.len(),
            out@ == calls@.take(i as int),
        decreases calls.len() - i,
    {
        let c = &calls[i];
        let copy = ChatToolCall {
            id: c.id.clone(),
            call_type: c.call_type.clone(),
            function: crate::llm::ChatToolCallFunction {
                name: c.function.name.clone(),
                arguments: c.function.arguments.clone(),
            },
        };
        assert(copy == calls@[i as int]);
        out.push(copy);
        i += 1;
        assert(out@ =~= calls@.take(i as int));
    }
    assert(calls@.take(calls.len() as int) =~= calls@);
    out
}

/// The error reported to the model for a tool the user refused.
pub open spec fn user_denied_text(tool_name: Seq<char>) -> Seq<char> {
    "User denied execution of tool '"@ + tool_name + "'"@
}

/// The error reported to the model for a tool a background run refused.
pub open spec fn background_denied_text(tool_name: Seq<char>) -> Seq<char> {
    "Background scheduler denied tool '"@ + tool_name + "' by whitelist/policy"@
}

/// `User denied execution of tool '<name>'`.
pub fn user_denied_message(tool_name: &str) -> (r: String)
    ensures
        r@ == user_denied_text(tool_name@),
{
    let mut out = chars_of("User denied execution of tool '");
    let n = chars_of(tool_name);
    push_all(&mut out, n.as_slice());
    let tail = chars_of("'");
    push_all(&mut out, tail.as_slice());
    string_of(out.as_slice())
}

/// `Background scheduler denied tool '<name>' by whitelist/policy`.
pub fn background_denied_message(tool_name: &str) -> (r: String)
    ensures
        r@ == background_denied_text(tool_name@),
{
    let mut out = chars_of("Background scheduler denied tool '");
    let n = chars_of(tool_name);
    push_all(&mut out, n.as_slice());
    let tail = chars_of("' by whitelist/policy");
    push_all(&mut out, tail.as_slice());
    string_of(out.as_slice())
}

/// The outcome of a background run.
#[derive(Debug, Clone)]
pub struct BackgroundAgentRunResult {
    pub content: String,
    pub reasoning: Option<String>,
    pub rounds: usize,
    pub tool_calls: usize,
    pub blocked_tools: usize,
    pub guard_stopped: bool,
}

/// The outcome of a background run that ended with an answer, or with the
/// guard text when it was stopped for repeating itself.
pub fn background_result(turn: &AgentTurn, outcome: &ReplyOutcome) -> (r: Option<BackgroundAgentRunResult>)
    ensures
        match outcome {
            ReplyOutcome::Finished { content, reasoning } => r matches Some(res) && res.content == content
                && res.reasoning == reasoning && !res.guard_stopped,
            ReplyOutcome::GuardStopped => r matches Some(res) && res.content@ == repeated_tool_guard_text()
                && res.reasoning is None && res.guard_stopped,
            _ => r is None,
        },
        r matches Some(res) ==> res.rounds == turn.rounds && res.tool_calls == turn.tool_calls
            && res.blocked_tools == turn.blocked_tools,
{
    match outcome {
        ReplyOutcome::Finished { content, reasoning } => Some(BackgroundAgentRunResult {
            content: content.clone(),
            reasoning: reasoning.clone(),
            rounds: turn.rounds,
            tool_calls: turn.tool_calls,
            blocked_tools: turn.blocked_tools,
            guard_stopped: false,
        }),
        ReplyOutcome::GuardStopped => Some(BackgroundAgentRunResult {
            content: owned("Detected repeated identical tool calls from the model. Automatic tool loop was stopped. Please provide a more specific target (file/directory) and try again."),
            reasoning: None,
            rounds: turn.rounds,
            tool_calls: turn.tool_calls,
            blocked_tools: turn.blocked_tools,
            guard_stopped: true,
        }),
        _ => None,
    }
}

/// A stored message, with what its `tool_calls` column holds: the calls of
/// an assistant message (when they read as a list of calls), or the
/// `tool_call_id` of a tool message's metadata.
#[derive(Debug, Clone)]
pub struct StoredMessage {
    pub role: String,
    pub content: String,
    pub tool_calls: Option<Vec<ChatToolCall>>,
    pub reasoning: Option<String>,
    pub tool_call_id: Option<String>,
}

/// The message a stored one becomes in the conversation sent to the model:
/// an assistant message keeps its text (none when empty), its calls, and
/// its reasoning (trimmed, unless blank) with the reasoning details made
/// from it; a tool message keeps its text and call id; any other keeps its
/// text.
pub open spec fn is_context_message(m: ChatMessage, s: StoredMessage) -> bool {
    &&& m.role@ == s.role@
    &&& if s.role@ == "assistant"@ {
        &&& opt_view(m.content) == (if s.content@.len() == 0 { None } else { Some(s.content@) })
        &&& m.tool_calls == s.tool_calls
        &&& m.tool_call_id is None
        &&& opt_view(m.reasoning) == trimmed_present(s.reasoning)
        &&& match trimmed_present(s.reasoning) {
            Some(t) => m.reasoning_details matches Some(d) && d@.len() == 1 && is_text_reasoning_detail(d@[0], t),
            None => m.reasoning_details is None,
        }
    } else if s.role@ == "tool"@ {
        &&& m.content matches Some(c) && c@ == s.content@
        &&& m.tool_calls is None
        &&& opt_view(m.tool_call_id) == opt_view(s.tool_call_id)
        &&& m.reasoning_details is None
        &&& m.reasoning is None
    } else {
        is_plain_message(m, s.role@, s.content@)
    }
}

/// The message a stored one becomes (see `is_context_message`).
pub fn context_message(s: StoredMessage) -> (r: ChatMessage)
    ensures
        is_context_message(r, s),
{
    let ghost original = s;
    if str_eq(s.role.as_str(), "assistant") {
        let reasoning = trim_present(&s.reasoning);
        let details = match &reasoning {
            Some(t) => {
                proof {
                    crate::text::lemma_trim_idempotent(original.reasoning->0@);
                    assert(trim_seq(t@) == t@);
                }
                reasoning_details_from_text(t.as_str())
            },
            None => None,
        };
        let content = if s.content.as_str().is_empty() { None } else { Some(s.content) };
        ChatMessage { role: s.role, content, tool_calls: s.tool_calls, tool_call_id: None, reasoning_details: details, reasoning }
    } else if str_eq(s.role.as_str(), "tool") {
        ChatMessage {
            role: s.role,
            content: Some(s.content),
            tool_calls: None,
            tool_call_id: s.tool_call_id,
            reasoning_details: None,
            reasoning: None,
        }
    } else {
        ChatMessage { role: s.role, content: Some(s.content), tool_calls: None, tool_call_id: None, reasoning_details: None, reasoning: None }
    }
}

/// The conversation sent to the model, from its stored messages in order
/// (see `is_context_message`).
pub fn load_conversation_context(rows: Vec<StoredMessage>) -> (r: Vec<ChatMessage>)
    ensures
        r@.len() == rows@.len(),
        forall|i: int| 0 <= i < rows@.len() ==> #[trigger] is_context_message(r@[i], rows@[i]),
{
    let mut out: Vec<ChatMessage> = Vec::new();
    let mut rest = rows;
    let ghost all = rest@;
    assert(all.skip(0) =~= all);
    while rest.len() > 0
        invariant
            out@.len() <= all.len(),
            rest@ == all.skip(out@.len() as int),
            forall|i: int| 0 <= i < out@.len() ==> #[trigger] is_context_message(out@[i], all[i]),
        decreases rest@.len(),
    {
        let k = out.len();
        let m = rest.remove(0);
        assert(m == all[k as int]);
        let c = context_message(m);
        out.push(c);
        assert(rest@ =~= all.skip(out@.len() as int));
    }
    out
}


/// Who wrote a message shown in a conversation.
#[derive(Debug, Clone, Copy, PartialEq, Eq, Structural)]
pub enum MessageRole {
    User,
    Assistant,
    System,
    Tool,
}

/// The role a stored role name stands for; an unknown name is read as the
/// user's.
pub open spec fn stored_role(role: Seq<char>) -> MessageRole {
    if role == "assistant"@ {
        MessageRole::Assistant
    } else if role == "system"@ {
        MessageRole::System
    } else if role == "tool"@ {
        MessageRole::Tool
    } else {
        MessageRole::User
    }
}

/// Reads a stored role name (see `stored_role`).
pub fn message_role_from_stored(role: &str) -> (r: MessageRole)
    ensures
        r == stored_role(role@),
{
    if str_eq(role, "user") {
        proof {
            reveal_strlit("user");
            reveal_strlit("assistant");
            reveal_strlit("system");
            reveal_strlit("tool");
            assert("user"@.len() != "assistant"@.len());
            assert("user"@[0] != "system"@[0]);
            assert("user"@[0] != "tool"@[0]);
        }
        MessageRole::User
    } else if str_eq(role, "assistant") {
        MessageRole::Assistant
    } else if str_eq(role, "system") {
        MessageRole::System
    } else if str_eq(role, "tool") {
        MessageRole::Tool
    } else {
        MessageRole::User
    }
}

} // verus!
