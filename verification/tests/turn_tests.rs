use petool_core::llm::{ChatMessage, ChatToolCall, ChatToolCallFunction, LlmStreamResult};
use petool_core::permissions::ToolApprovalDecision;
use petool_core::turn::{
    context_message, load_conversation_context, message_role_from_stored, MessageRole, StoredMessage,
    background_denied_message, background_result, background_run_content, format_tool_error_result,
    push_background_tool_result_message, user_denied_message, AgentTurn, ReplyOutcome,
};

fn call(id: &str, name: &str, args: &str) -> ChatToolCall {
    ChatToolCall {
        id: id.to_string(),
        call_type: "function".to_string(),
        function: ChatToolCallFunction { name: name.to_string(), arguments: args.to_string() },
    }
}

fn reply(content: &str, reasoning: &str, calls: Vec<ChatToolCall>, cancelled: bool) -> LlmStreamResult {
    LlmStreamResult {
        content: content.to_string(),
        reasoning: reasoning.to_string(),
        reasoning_details: None,
        tool_calls: calls,
        cancelled,
    }
}

#[test]
fn background_content_is_trimmed_and_required() {
    assert_eq!(background_run_content("  check disk  ").unwrap(), "check disk");
    assert_eq!(
        background_run_content(" \n\t ").unwrap_err(),
        "Background run content cannot be empty"
    );
}

#[test]
fn tool_error_result_is_pretty_json() {
    let text = format_tool_error_result("boom");
    assert_eq!(text, "{\n  \"error\": \"boom\"\n}");
    let parsed: serde_json::Value = serde_json::from_str(&text).unwrap();
    assert_eq!(parsed["error"], "boom");
}

#[test]
fn tool_result_message_is_appended() {
    let mut messages: Vec<ChatMessage> = Vec::new();
    push_background_tool_result_message(&mut messages, &call("c1", "read_file", "{}"), "ok".to_string());
    assert_eq!(messages.len(), 1);
    assert_eq!(messages[0].role, "tool");
    assert_eq!(messages[0].content.as_deref(), Some("ok"));
    assert_eq!(messages[0].tool_call_id.as_deref(), Some("c1"));
    assert!(messages[0].tool_calls.is_none());
}

#[test]
fn new_turn_adds_the_user_message() {
    let turn = AgentTurn::new(Vec::new(), "hello".to_string());
    assert_eq!(turn.messages.len(), 1);
    assert_eq!(turn.messages[0].role, "user");
    assert_eq!(turn.messages[0].content.as_deref(), Some("hello"));
    assert_eq!(turn.rounds, 0);
    assert_eq!(turn.tool_calls, 0);
}

#[test]
fn paused_reply_without_text_stores_the_paused_marker() {
    let mut turn = AgentTurn::new(Vec::new(), "hi".to_string());
    turn.begin_round();
    match turn.on_reply(reply("  ", "", Vec::new(), true)) {
        ReplyOutcome::Paused { content } => assert_eq!(content, "（已暂停）"),
        other => panic!("unexpected {:?}", other),
    }
    match turn.on_reply(reply("partial", "", Vec::new(), true)) {
        ReplyOutcome::Paused { content } => assert_eq!(content, "partial"),
        other => panic!("unexpected {:?}", other),
    }
    assert_eq!(turn.messages.len(), 1);
    assert_eq!(turn.rounds, 1);
}

#[test]
fn reply_without_tools_finishes() {
    let mut turn = AgentTurn::new(Vec::new(), "hi".to_string());
    match turn.on_reply(reply("done", "  ", Vec::new(), false)) {
        ReplyOutcome::Finished { content, reasoning } => {
            assert_eq!(content, "done");
            assert!(reasoning.is_none());
        }
        other => panic!("unexpected {:?}", other),
    }
    match turn.on_reply(reply("done", "because", Vec::new(), false)) {
        ReplyOutcome::Finished { reasoning, .. } => assert_eq!(reasoning.as_deref(), Some("because")),
        other => panic!("unexpected {:?}", other),
    }
}

#[test]
fn third_identical_tool_round_stops_the_turn() {
    let mut turn = AgentTurn::new(Vec::new(), "hi".to_string());
    let calls = || vec![call("a", "read_file", "{\"path\":\"x\"}")];
    assert!(matches!(turn.on_reply(reply("", "", calls(), false)), ReplyOutcome::RunTools(ref c) if c.len() == 1));
    assert_eq!(turn.messages.len(), 2);
    assert_eq!(turn.messages[1].role, "assistant");
    assert!(turn.messages[1].content.is_none());
    assert!(matches!(turn.on_reply(reply("", "", calls(), false)), ReplyOutcome::RunTools(_)));
    assert!(matches!(turn.on_reply(reply("", "", calls(), false)), ReplyOutcome::GuardStopped));
    assert_eq!(turn.tool_calls, 3);
    let result = background_result(&turn, &ReplyOutcome::GuardStopped).unwrap();
    assert!(result.guard_stopped);
    assert!(result.content.starts_with("Detected repeated identical tool calls"));
    assert_eq!(result.tool_calls, 3);
}

#[test]
fn a_different_round_resets_the_guard() {
    let mut turn = AgentTurn::new(Vec::new(), "hi".to_string());
    let a = || vec![call("a", "read_file", "{\"path\":\"x\"}")];
    let b = || vec![call("b", "read_file", "{\"path\":\"y\"}")];
    assert!(matches!(turn.on_reply(reply("", "", a(), false)), ReplyOutcome::RunTools(_)));
    assert!(matches!(turn.on_reply(reply("", "", a(), false)), ReplyOutcome::RunTools(_)));
    assert!(matches!(turn.on_reply(reply("", "", b(), false)), ReplyOutcome::RunTools(_)));
    assert!(matches!(turn.on_reply(reply("", "", b(), false)), ReplyOutcome::RunTools(_)));
    assert_eq!(turn.repeated_rounds, 1);
}

#[test]
fn denied_and_allowed_tools_are_recorded() {
    let mut turn = AgentTurn::new(Vec::new(), "hi".to_string());
    let c = call("c9", "exec", "{}");
    turn.record_denied(&c, &background_denied_message("exec"), true);
    assert_eq!(turn.blocked_tools, 1);
    let last = turn.messages.last().unwrap();
    assert_eq!(last.role, "tool");
    let parsed: serde_json::Value = serde_json::from_str(last.content.as_deref().unwrap()).unwrap();
    assert_eq!(parsed["error"], "Background scheduler denied tool 'exec' by whitelist/policy");
    turn.record_denied(&c, &user_denied_message("exec"), false);
    assert_eq!(turn.blocked_tools, 1);
    turn.record_allowed("exec", ToolApprovalDecision::AllowAlways);
    turn.record_allowed("exec", ToolApprovalDecision::AllowAlways);
    turn.record_allowed("read", ToolApprovalDecision::AllowOnce);
    assert_eq!(turn.always_allowed, vec!["exec".to_string()]);
    turn.record_tool_output(&c, Ok("output".to_string()));
    assert_eq!(turn.messages.last().unwrap().content.as_deref(), Some("output"));
    turn.record_tool_output(&c, Err("failed".to_string()));
    let parsed: serde_json::Value =
        serde_json::from_str(turn.messages.last().unwrap().content.as_deref().unwrap()).unwrap();
    assert_eq!(parsed["error"], "failed");
}

#[test]
fn denial_messages_name_the_tool() {
    assert_eq!(user_denied_message("write_file"), "User denied execution of tool 'write_file'");
    assert_eq!(
        background_denied_message("write_file"),
        "Background scheduler denied tool 'write_file' by whitelist/policy"
    );
}

#[test]
fn background_result_only_for_final_outcomes() {
    let turn = AgentTurn::new(Vec::new(), "hi".to_string());
    let finished = ReplyOutcome::Finished { content: "answer".to_string(), reasoning: Some("r".to_string()) };
    let res = background_result(&turn, &finished).unwrap();
    assert_eq!(res.content, "answer");
    assert_eq!(res.reasoning.as_deref(), Some("r"));
    assert!(!res.guard_stopped);
    assert!(background_result(&turn, &ReplyOutcome::RunTools(Vec::new())).is_none());
}

fn stored(role: &str, content: &str, reasoning: Option<&str>, call_id: Option<&str>) -> StoredMessage {
    StoredMessage {
        role: role.to_string(),
        content: content.to_string(),
        tool_calls: None,
        reasoning: reasoning.map(|r| r.to_string()),
        tool_call_id: call_id.map(|c| c.to_string()),
    }
}

#[test]
fn stored_assistant_message_keeps_trimmed_reasoning() {
    let m = context_message(stored("assistant", "", Some("  think  "), None));
    assert_eq!(m.role, "assistant");
    assert!(m.content.is_none());
    assert_eq!(m.reasoning.as_deref(), Some("think"));
    let details = m.reasoning_details.expect("details");
    assert_eq!(details.len(), 1);
    let blank = context_message(stored("assistant", "hi", Some("   "), None));
    assert_eq!(blank.content.as_deref(), Some("hi"));
    assert!(blank.reasoning.is_none());
    assert!(blank.reasoning_details.is_none());
}

#[test]
fn conversation_context_keeps_order_and_tool_ids() {
    let rows = vec![
        stored("user", "hello", None, None),
        stored("assistant", "answer", None, Some("ignored")),
        stored("tool", "result", None, Some("call_1")),
    ];
    let out = load_conversation_context(rows);
    assert_eq!(out.len(), 3);
    assert_eq!(out[0].role, "user");
    assert_eq!(out[0].content.as_deref(), Some("hello"));
    assert!(out[1].tool_call_id.is_none());
    assert_eq!(out[1].content.as_deref(), Some("answer"));
    assert_eq!(out[2].role, "tool");
    assert_eq!(out[2].tool_call_id.as_deref(), Some("call_1"));
    assert_eq!(out[2].content.as_deref(), Some("result"));
}

#[test]
fn stored_roles_are_read_with_user_as_fallback() {
    assert_eq!(message_role_from_stored("user"), MessageRole::User);
    assert_eq!(message_role_from_stored("assistant"), MessageRole::Assistant);
    assert_eq!(message_role_from_stored("system"), MessageRole::System);
    assert_eq!(message_role_from_stored("tool"), MessageRole::Tool);
    assert_eq!(message_role_from_stored("Assistant"), MessageRole::User);
    assert_eq!(message_role_from_stored(""), MessageRole::User);
}
