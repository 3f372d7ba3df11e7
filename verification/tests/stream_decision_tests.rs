use petool_core::desktop::{plan_action, DesktopAction};
use petool_core::llm::{
    openai_request_plan, should_retry_without_tools, stream_request_error, AnthropicEvent, LlmStreamEvent,
    OpenAiRequestPlan, StreamAccumulator,
};
use petool_core::tools::{batch_outcome, BatchStep};

#[test]
fn retry_without_tools_only_for_invalid_chat_setting() {
    assert!(should_retry_without_tools(true, "400: Invalid Chat Setting (2013)"));
    assert!(!should_retry_without_tools(false, "invalid chat setting"));
    assert!(!should_retry_without_tools(true, "rate limited"));
    assert_eq!(stream_request_error("boom", None), "API error: boom");
    assert_eq!(
        stream_request_error("boom", Some("again")),
        "API error: boom; fallback without tools failed: again"
    );
}

#[test]
fn minimax_requests_differ() {
    assert_eq!(
        openai_request_plan(" MiniMax-M2 ", true),
        OpenAiRequestPlan { merge_system_messages: true, tool_choice_auto: false, reasoning_split: true }
    );
    assert_eq!(
        openai_request_plan("glm-4", true),
        OpenAiRequestPlan { merge_system_messages: false, tool_choice_auto: true, reasoning_split: false }
    );
    assert!(!openai_request_plan("glm-4", false).tool_choice_auto);
}

#[test]
fn anthropic_events_build_the_answer() {
    let mut acc = StreamAccumulator::new();
    let (events, stop) = acc.anthropic_event_step(AnthropicEvent::TextDelta { text: Some("Hi".to_string()) });
    assert!(!stop);
    assert!(matches!(&events[0], LlmStreamEvent::Content(t) if t == "Hi"));
    let (events, _) = acc.anthropic_event_step(AnthropicEvent::TextDelta { text: Some(String::new()) });
    assert!(events.is_empty());
    let (events, _) = acc.anthropic_event_step(AnthropicEvent::ThinkingDelta { thinking: Some("hmm".to_string()) });
    assert!(matches!(&events[0], LlmStreamEvent::Reasoning(t) if t == "hmm"));
    let (events, _) = acc.anthropic_event_step(AnthropicEvent::ToolUseStart {
        index: 1,
        id: Some("tu_1".to_string()),
        name: Some("bash".to_string()),
        input: None,
    });
    assert!(events.is_empty());
    let (events, _) = acc.anthropic_event_step(AnthropicEvent::InputJsonDelta {
        index: 1,
        partial_json: Some("{\"command\":\"ls\"}".to_string()),
    });
    match &events[0] {
        LlmStreamEvent::ToolCallDelta(d) => {
            assert_eq!(d.index, 1);
            assert_eq!(d.id.as_deref(), Some("tu_1"));
            assert_eq!(d.name.as_deref(), Some("bash"));
        }
        _ => panic!("expected a tool call piece"),
    }
    let (_, stop) = acc.anthropic_event_step(AnthropicEvent::Other);
    assert!(!stop);
    let (_, stop) = acc.anthropic_event_step(AnthropicEvent::MessageStop);
    assert!(stop);
    let result = acc.finish();
    assert_eq!(result.content, "Hi");
    assert_eq!(result.reasoning, "hmm");
    assert_eq!(result.tool_calls.len(), 1);
    assert_eq!(result.tool_calls[0].id, "tu_1");
    assert_eq!(result.tool_calls[0].function.arguments, "{\"command\":\"ls\"}");
}

#[test]
fn desktop_actions_are_planned() {
    assert_eq!(plan_action("list_windows", true).unwrap(), DesktopAction::ListWindows);
    assert_eq!(plan_action("excel_set_cell", true).unwrap(), DesktopAction::ExcelSetCell);
    assert_eq!(plan_action("list_windows", false).err().unwrap(), "'params' must be an object");
    assert_eq!(plan_action("fly", true).err().unwrap(), "Unsupported desktop action: fly");
}

#[test]
fn batch_outcomes_report_results_and_errors() {
    let o = batch_outcome(2, BatchStep::NotAllowed { tool: "bash".to_string() }, None);
    assert_eq!(o.index, 2);
    assert_eq!(o.error.as_deref(), Some("Tool is not allowed in core_batch"));
    assert!(o.result.is_none());
    let o = batch_outcome(0, BatchStep::Run { tool: "todo_read".to_string() }, Some(Ok("{}".to_string())));
    assert_eq!(o.result.as_deref(), Some("{}"));
    assert!(o.error.is_none());
    let o = batch_outcome(1, BatchStep::Run { tool: "web_fetch".to_string() }, Some(Err("down".to_string())));
    assert_eq!(o.error.as_deref(), Some("down"));
}
