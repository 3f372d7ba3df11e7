use petool_core::desktop::{
    action_from_arguments, classify_action_risk, desktop_timeout_message, is_high_risk_action,
    plan_desktop_request, DesktopManager, DesktopPlan, DesktopRect, DesktopRiskLevel,
};
use petool_core::config::Config;
use petool_core::llm::{
    append_reasoning_chunk, append_tool_arguments_chunk, build_tool_round_signature,
    extract_reasoning_text_from_details, is_minimax_model, is_system_role, merge_leading_system_messages,
    reasoning_details_from_text, ChatMessage, ChatReasoningDetail, ChatToolCall, ChatToolCallFunction,
    LlmStreamEvent, StreamAccumulator,
};

fn message(role: &str, content: Option<&str>) -> ChatMessage {
    ChatMessage {
        role: role.to_string(),
        content: content.map(|c| c.to_string()),
        tool_calls: None,
        tool_call_id: None,
        reasoning_details: None,
        reasoning: None,
    }
}

#[test]
fn reasoning_chunks_merge_snapshots_and_pieces() {
    let mut base = String::new();
    assert_eq!(append_reasoning_chunk(&mut base, "Think"), Some("Think".to_string()));
    assert_eq!(append_reasoning_chunk(&mut base, "Thinking"), Some("ing".to_string()));
    assert_eq!(base, "Thinking");
    assert_eq!(append_reasoning_chunk(&mut base, "Thinking"), None);
    assert_eq!(append_reasoning_chunk(&mut base, " more"), Some(" more".to_string()));
    assert_eq!(base, "Thinking more");
    assert_eq!(append_reasoning_chunk(&mut base, ""), None);
}

#[test]
fn tool_argument_chunks_replace_snapshots_and_append_pieces() {
    let mut base = String::new();
    append_tool_arguments_chunk(&mut base, "{\"a\":");
    append_tool_arguments_chunk(&mut base, "1}");
    assert_eq!(base, "{\"a\":1}");
    append_tool_arguments_chunk(&mut base, " {\"a\":2} ");
    assert_eq!(base, "{\"a\":2}");
    append_tool_arguments_chunk(&mut base, "{}{\"action\":\"start\"}");
    assert_eq!(base, "{\"action\":\"start\"}");
    let mut partial = "{\"x\"".to_string();
    append_tool_arguments_chunk(&mut partial, "{\"x\":");
    assert_eq!(partial, "{\"x\":");
    append_tool_arguments_chunk(&mut partial, "{\"x\":");
    assert_eq!(partial, "{\"x\":");
}

#[test]
fn reasoning_details_round_trip() {
    let details = reasoning_details_from_text("  why  ").unwrap();
    assert_eq!(details.len(), 1);
    assert_eq!(details[0].text.as_deref(), Some("why"));
    assert_eq!(details[0].detail_type.as_deref(), Some("reasoning.text"));
    assert_eq!(details[0].format.as_deref(), Some("MiniMax-response-v1"));
    assert_eq!(details[0].id.as_deref(), Some("reasoning-text-1"));
    assert_eq!(details[0].index, Some(0));
    assert!(reasoning_details_from_text("   ").is_none());
    let parts = vec![
        ChatReasoningDetail { text: Some(" a".to_string()), detail_type: None, format: None, id: None, index: None },
        ChatReasoningDetail { text: None, detail_type: None, format: None, id: None, index: None },
        ChatReasoningDetail { text: Some("b ".to_string()), detail_type: None, format: None, id: None, index: None },
    ];
    assert_eq!(extract_reasoning_text_from_details(Some(&parts)), Some("ab".to_string()));
    assert_eq!(extract_reasoning_text_from_details(None), None);
}

#[test]
fn roles_and_models_are_recognised() {
    assert!(is_system_role(" SYSTEM "));
    assert!(!is_system_role("user"));
    assert!(is_minimax_model(" MiniMax-M2"));
    assert!(!is_minimax_model("glm-4"));
}

#[test]
fn leading_system_messages_are_merged() {
    let msgs = vec![
        message("system", Some(" one ")),
        message("System", Some("  ")),
        message("system", Some("two")),
        message("user", Some("hi")),
    ];
    let merged = merge_leading_system_messages(msgs);
    assert_eq!(merged.len(), 2);
    assert_eq!(merged[0].content.as_deref(), Some("one\n\ntwo"));
    assert_eq!(merged[1].role, "user");
    let single = merge_leading_system_messages(vec![message("system", Some("x")), message("user", None)]);
    assert_eq!(single.len(), 2);
    let blanks = merge_leading_system_messages(vec![message("system", None), message("system", Some(" "))]);
    assert!(blanks.is_empty());
}

#[test]
fn stream_accumulator_assembles_tool_calls_in_index_order() {
    let mut acc = StreamAccumulator::new();
    assert!(acc.add_content(String::new()).is_none());
    assert!(matches!(acc.add_content("Hel".to_string()), Some(LlmStreamEvent::Content(_))));
    acc.add_content("lo".to_string());
    acc.add_reasoning("r");
    acc.add_tool_call_chunk(2, None, Some("web_fetch".to_string()), Some("{\"url\":".to_string()));
    acc.add_tool_call_chunk(0, Some("call-a".to_string()), Some("bash".to_string()), None);
    acc.add_tool_call_chunk(2, None, None, Some("\"x\"}".to_string()));
    acc.add_tool_call_chunk(1, None, None, Some("{}".to_string()));
    let result = acc.finish();
    assert_eq!(result.content, "Hello");
    assert_eq!(result.reasoning, "r");
    assert_eq!(result.tool_calls.len(), 2);
    assert_eq!(result.tool_calls[0].id, "call-a");
    assert_eq!(result.tool_calls[0].function.name, "bash");
    assert_eq!(result.tool_calls[1].id, "tool_call_2");
    assert_eq!(result.tool_calls[1].function.arguments, "{\"url\":\"x\"}");
    assert_eq!(result.tool_calls[1].call_type, "function");
    assert!(result.reasoning_details.is_some());
}

#[test]
fn round_signature_is_json_of_name_and_arguments() {
    let calls = vec![ChatToolCall {
        id: "1".to_string(),
        call_type: "function".to_string(),
        function: ChatToolCallFunction { name: "bash".to_string(), arguments: "{}".to_string() },
    }];
    assert_eq!(build_tool_round_signature(&calls), "[[\"bash\",\"{}\"]]");
    assert_eq!(build_tool_round_signature(&[]), "[]");
}

#[test]
fn desktop_actions_are_classified() {
    assert_eq!(classify_action_risk(" List_Windows "), DesktopRiskLevel::Low);
    assert_eq!(classify_action_risk("click_input"), DesktopRiskLevel::High);
    assert!(is_high_risk_action("type_keys"));
    assert!(!is_high_risk_action("wait"));
    assert_eq!(action_from_arguments(Some("  status ")), Some("status".to_string()));
    assert_eq!(action_from_arguments(Some("  ")), None);
    assert_eq!(action_from_arguments(None), None);
}

#[test]
fn desktop_rect_measures() {
    let r = DesktopRect { left: 10, top: 20, right: 110, bottom: 70 };
    assert_eq!(r.width(), 100);
    assert_eq!(r.height(), 50);
}

#[test]
fn desktop_requests_are_planned() {
    let mut config = Config::default_with("/tmp/Downloads".to_string(), true).desktop;
    assert!(matches!(plan_desktop_request("  ", &config, true), DesktopPlan::MissingAction));
    match plan_desktop_request(" status ", &config, true) {
        DesktopPlan::Run { action, risk_level, timeout_ms } => {
            assert_eq!(action, "status");
            assert_eq!(risk_level, DesktopRiskLevel::Low);
            assert_eq!(timeout_ms, 20_000);
        }
        _ => panic!("expected run"),
    }
    match plan_desktop_request("click", &config, false) {
        DesktopPlan::Refuse { error, .. } => assert_eq!(error, "Desktop tool is only supported on Windows"),
        _ => panic!("expected refusal"),
    }
    config.enabled = false;
    match plan_desktop_request("click", &config, true) {
        DesktopPlan::Refuse { error, risk_level, .. } => {
            assert_eq!(error, "Desktop control is disabled. Set desktop.enabled=true in settings.");
            assert_eq!(risk_level, DesktopRiskLevel::High);
        }
        _ => panic!("expected refusal"),
    }
    config.enabled = true;
    config.operation_timeout_ms = 10;
    match plan_desktop_request("wait", &config, true) {
        DesktopPlan::Run { timeout_ms, .. } => assert_eq!(timeout_ms, 500),
        _ => panic!("expected run"),
    }
    assert_eq!(desktop_timeout_message("click", 500), "Desktop action 'click' timed out after 500 ms");
}

#[test]
fn desktop_sessions_are_kept_per_conversation() {
    let mut manager = DesktopManager::new();
    let a = manager.session_mut("conv-a");
    let b = manager.session_mut("conv-b");
    let a_again = manager.session_mut("conv-a");
    assert_eq!(a, a_again);
    assert_ne!(a, b);
    assert_eq!(manager.sessions.len(), 2);
}
