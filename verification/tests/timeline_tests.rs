use petool_core::models::TimelineEventType;
use petool_core::timeline::{legacy_timeline, LegacyCall, LegacyMessage, LegacyPayload};

fn msg(id: &str, role: &str, content: &str) -> LegacyMessage {
    LegacyMessage {
        id: id.to_string(),
        role: role.to_string(),
        content: content.to_string(),
        created_at: format!("t-{}", id),
        conversation_id: "conv".to_string(),
        calls: None,
        reasoning: None,
        result_tool_call_id: None,
        result_tool_name: None,
        result_error: None,
    }
}

#[test]
fn legacy_messages_become_turns_and_events() {
    let mut assistant = msg("m2", "assistant", "Done.");
    assistant.reasoning = Some("  thinking  ".to_string());
    assistant.calls = Some(vec![
        LegacyCall { id: "c1".to_string(), name: "read_file".to_string(), arguments_chunk: "{}".to_string() },
        LegacyCall { id: "c2".to_string(), name: "write_file".to_string(), arguments_chunk: "{\"a\":1}".to_string() },
    ]);
    let mut tool = msg("m3", "tool", "{\"error\":\"boom\"}");
    tool.result_tool_call_id = Some("c1".to_string());
    tool.result_error = Some("boom".to_string());
    let messages = vec![
        msg("m0", "assistant", "early"),
        msg("m1", "user", "hi"),
        assistant,
        tool,
        msg("m4", "system", "ignored"),
        msg("m5", "user", "again"),
        msg("m6", "assistant", "   "),
    ];
    let events = legacy_timeline(&messages);
    let kinds: Vec<TimelineEventType> = events.iter().map(|e| e.event_type).collect();
    assert_eq!(
        kinds,
        vec![
            TimelineEventType::AssistantText,
            TimelineEventType::UserMessage,
            TimelineEventType::AssistantReasoning,
            TimelineEventType::AssistantToolCall,
            TimelineEventType::AssistantToolCall,
            TimelineEventType::AssistantText,
            TimelineEventType::AssistantToolResult,
            TimelineEventType::UserMessage,
        ]
    );
    let seqs: Vec<i64> = events.iter().map(|e| e.seq).collect();
    assert_eq!(seqs, vec![1, 2, 3, 4, 5, 6, 7, 8]);
    let turns: Vec<&str> = events.iter().map(|e| e.turn_id.as_str()).collect();
    assert_eq!(
        turns,
        vec![
            "legacy-turn-1", "legacy-turn-2", "legacy-turn-2", "legacy-turn-2", "legacy-turn-2", "legacy-turn-2",
            "legacy-turn-2", "legacy-turn-3"
        ]
    );
    assert_eq!(events[0].id, "legacy-m0-1");
    assert_eq!(events[4].id, "legacy-m2-5");
    assert_eq!(events[4].tool_call_id.as_deref(), Some("c2"));
    match &events[4].payload {
        LegacyPayload::ToolCall { index, name, arguments_chunk } => {
            assert_eq!(*index, 1);
            assert_eq!(name, "write_file");
            assert_eq!(arguments_chunk, "{\"a\":1}");
        }
        other => panic!("unexpected {:?}", other),
    }
    match &events[2].payload {
        LegacyPayload::Reasoning { text } => assert_eq!(text, "thinking"),
        other => panic!("unexpected {:?}", other),
    }
    match &events[6].payload {
        LegacyPayload::ToolResult { name, error, .. } => {
            assert_eq!(name, "tool");
            assert_eq!(error.as_deref(), Some("boom"));
        }
        other => panic!("unexpected {:?}", other),
    }
    assert_eq!(events[6].tool_call_id.as_deref(), Some("c1"));
    assert_eq!(events[7].created_at, "t-m5");
    assert!(legacy_timeline(&Vec::new()).is_empty());
}
