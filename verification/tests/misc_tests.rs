use petool_core::catalog::{
    tool_call_target, tool_not_found_message,
    build_tool_alias, mcp_tool_aliases, mcp_tool_description, parse_tool_arguments, recover_tool_arguments_candidate,
    ParsedArguments,
};
use petool_core::image::{detect_image_metadata, image_format_to_mime, parse_jpeg_dimensions};
use petool_core::models::{
    default_entry_point, detect_available_node_runtime, managed_node_executable, node_executable_name,
    parse_timeline_event_type, TimelineEventType,
};
use petool_core::prompt::{
    build_uploaded_attachments_guidance, normalize_uploaded_attachment, prepend_system_prompt,
    prepend_tool_usage_guidance, UploadedAttachment, UploadedAttachmentInput,
};
use petool_core::llm::ChatMessage;

#[test]
fn png_gif_bmp_ico_webp_headers() {
    let mut png = vec![137, 80, 78, 71, 13, 10, 26, 10];
    png.extend_from_slice(&[0; 8]);
    png.extend_from_slice(&[0, 0, 1, 0, 0, 0, 0, 200]);
    assert_eq!(detect_image_metadata(&png), ("png".to_string(), Some(256), Some(200)));
    let gif = b"GIF89a\x10\x00\x20\x00".to_vec();
    assert_eq!(detect_image_metadata(&gif), ("gif".to_string(), Some(16), Some(32)));
    let mut bmp = vec![b'B', b'M'];
    bmp.extend_from_slice(&[0; 16]);
    bmp.extend_from_slice(&[10, 0, 0, 0]);
    bmp.extend_from_slice(&[0xF6, 0xFF, 0xFF, 0xFF]);
    assert_eq!(detect_image_metadata(&bmp), ("bmp".to_string(), Some(10), Some(10)));
    let webp = b"RIFF\x00\x00\x00\x00WEBP".to_vec();
    assert_eq!(detect_image_metadata(&webp), ("webp".to_string(), None, None));
    let ico = vec![0, 0, 1, 0, 1, 0, 0, 48];
    assert_eq!(detect_image_metadata(&ico), ("ico".to_string(), Some(256), Some(48)));
    assert_eq!(detect_image_metadata(b"hello"), ("unknown".to_string(), None, None));
}

#[test]
fn jpeg_dimensions_from_frame_header() {
    let jpeg = vec![
        0xFF, 0xD8, 0xFF, 0xE0, 0x00, 0x04, 0x00, 0x00, 0xFF, 0xC0, 0x00, 0x08, 0x08, 0x01, 0xE0, 0x02,
        0x80, 0x03, 0x00, 0x00, 0x00, 0x00,
    ];
    assert_eq!(parse_jpeg_dimensions(&jpeg), Some((640, 480)));
    assert_eq!(detect_image_metadata(&jpeg), ("jpeg".to_string(), Some(640), Some(480)));
    assert_eq!(parse_jpeg_dimensions(&[0xFF, 0xD8, 0xFF, 0xD9, 0, 0, 0, 0, 0, 0, 0, 0, 0]), None);
    assert_eq!(parse_jpeg_dimensions(&[0x00, 0xD8]), None);
}

#[test]
fn image_mime_types() {
    assert_eq!(image_format_to_mime("png"), Some("image/png"));
    assert_eq!(image_format_to_mime("ico"), Some("image/x-icon"));
    assert_eq!(image_format_to_mime("tiff"), None);
}

#[test]
fn mcp_alias_and_argument_recovery() {
    assert_eq!(build_tool_alias("fs", "read"), "mcp__fs__read");
    assert_eq!(recover_tool_arguments_candidate("  "), Some(String::new()));
    assert_eq!(recover_tool_arguments_candidate("```json\n{\"a\":1}\n```"), Some("{\"a\":1}".to_string()));
    assert_eq!(recover_tool_arguments_candidate("{{\"a\":1}}"), Some("{\"a\":1}".to_string()));
    assert_eq!(
        recover_tool_arguments_candidate("call with {\"a\":1} please"),
        Some("{\"a\":1}".to_string())
    );
    assert_eq!(recover_tool_arguments_candidate("no json"), None);
}

#[test]
fn tool_arguments_are_parsed_or_kept_raw() {
    match parse_tool_arguments(" {\"a\":1} ") {
        ParsedArguments::Object(text) => assert_eq!(text, "{\"a\":1}"),
        other => panic!("unexpected {:?}", other),
    }
    match parse_tool_arguments("\"{\\\"b\\\":2}\"") {
        ParsedArguments::Object(text) => assert_eq!(text, "{\"b\":2}"),
        other => panic!("unexpected {:?}", other),
    }
    match parse_tool_arguments("```\n{\"c\":3}\n```") {
        ParsedArguments::Object(text) => assert_eq!(text, "{\"c\":3}"),
        other => panic!("unexpected {:?}", other),
    }
    assert!(matches!(parse_tool_arguments("   "), ParsedArguments::Empty));
    assert!(matches!(parse_tool_arguments("\"  \""), ParsedArguments::Empty));
    match parse_tool_arguments("not json") {
        ParsedArguments::Raw(raw) => assert_eq!(raw, "not json"),
        other => panic!("unexpected {:?}", other),
    }
}

#[test]
fn timeline_kinds_and_skill_defaults() {
    assert_eq!(parse_timeline_event_type("user_message"), TimelineEventType::UserMessage);
    assert_eq!(parse_timeline_event_type("assistant_tool_result"), TimelineEventType::AssistantToolResult);
    assert_eq!(parse_timeline_event_type("other"), TimelineEventType::AssistantText);
    assert_eq!(default_entry_point(), "index.js");
}

#[test]
fn node_runtime_choice() {
    assert_eq!(node_executable_name(true), "node.exe");
    assert_eq!(node_executable_name(false), "node");
    assert_eq!(managed_node_executable("/rt/current", false), "/rt/current/bin/node");
    let system = detect_available_node_runtime(true, None, false, false).unwrap();
    assert_eq!(system.node_command, "node");
    let managed = detect_available_node_runtime(
        false,
        Some(("/rt/current/bin/node".to_string(), Some("/rt/current/bin".to_string()))),
        true,
        true,
    )
    .unwrap();
    assert_eq!(managed.bin_dir.as_deref(), Some("/rt/current/bin"));
    assert!(detect_available_node_runtime(false, Some(("/x".to_string(), None)), true, false).is_none());
    assert!(detect_available_node_runtime(false, None, true, true).is_none());
}

#[test]
fn system_prompts_are_prepended() {
    let mut messages: Vec<ChatMessage> = Vec::new();
    prepend_system_prompt(&mut messages, Some("  be brief "));
    prepend_system_prompt(&mut messages, Some("   "));
    prepend_system_prompt(&mut messages, None);
    assert_eq!(messages.len(), 1);
    assert_eq!(messages[0].content.as_deref(), Some("be brief"));
    prepend_tool_usage_guidance(&mut messages, false);
    assert_eq!(messages.len(), 2);
    assert!(messages[0].content.as_deref().unwrap().starts_with("Tool selection policy: "));
    assert_eq!(messages[0].role, "system");
}

#[test]
fn upload_guidance_lists_files() {
    let input = UploadedAttachmentInput { path: "doc.pdf".to_string(), name: None, size: None, extension: Some(" PDF ".to_string()) };
    let a = normalize_uploaded_attachment(&input, "docs/doc.pdf", Some("doc.pdf"), Some("pdf"), 1234);
    assert_eq!(a.name, "doc.pdf");
    assert_eq!(a.extension, "pdf");
    assert_eq!(a.size, 1234);
    let b = UploadedAttachment { path: "x".to_string(), name: "x".to_string(), size: 0, extension: String::new() };
    let text = build_uploaded_attachments_guidance(&[a, b], "/ws").unwrap();
    assert_eq!(
        text,
        "Uploaded files for this turn (hidden context, do not echo verbatim):\n- Workspace root: /ws\n- Use uploaded files as primary context for the current user request.\n1. doc.pdf | path: docs/doc.pdf | size: 1234 bytes | ext: pdf\n2. x | path: x | size: 0 bytes | ext: (none)\nFor PDF files, call `workspace_parse_pdf_markdown` first (export_images=true by default), then use returned markdown/image paths for analysis."
    );
    assert!(build_uploaded_attachments_guidance(&[], "/ws").is_none());
}

#[test]
fn mcp_aliases_never_collide() {
    let t = |s: &str, n: &str| (s.to_string(), n.to_string());
    let tools = vec![t("fs", "read"), t("fs", "read"), t("fs", "read_1"), t("fs", "read"), t("git", "log")];
    assert_eq!(
        mcp_tool_aliases(&tools),
        vec![
            "mcp__fs__read".to_string(),
            "mcp__fs__read_1".to_string(),
            "mcp__fs__read_1_1".to_string(),
            "mcp__fs__read_2".to_string(),
            "mcp__git__log".to_string(),
        ]
    );
    assert_eq!(mcp_tool_description("", "read", "fs"), "MCP tool read from fs");
    assert_eq!(mcp_tool_description("Reads", "read", "fs"), "Reads");
}

#[test]
fn bash_calls_are_read_with_recovered_arguments() {
    let (name, args) = tool_call_target("bash", "```json\n{\"command\":\"ls\"}\n```");
    assert_eq!(name, "bash");
    assert_eq!(args, "{\"command\":\"ls\"}");
    let (name, args) = tool_call_target("web_search", "{\"query\":\"x\"}");
    assert_eq!(name, "web_search");
    assert_eq!(args, "{\"query\":\"x\"}");
    assert_eq!(tool_not_found_message("x", false), "Tool 'x' not found");
    assert_eq!(tool_not_found_message("x", true), "Tool 'x' not found in background session!");
}
