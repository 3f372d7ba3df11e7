use petool_core::tools::{catalog_lookup, runtime_tool_catalog, builtin_name_of, McpToolInfo};
use petool_core::tools::{batch_tool, builtin_tool_named, check_batch_call, BatchCall, BatchStep, RuntimeTool};

#[test]
fn tool_names_lead_to_tools() {
    assert!(matches!(builtin_tool_named("bash"), Some(RuntimeTool::WorkspaceRunCommand)));
    assert!(matches!(builtin_tool_named("workspace_search_code"), Some(RuntimeTool::WorkspaceCodeSearch)));
    assert!(matches!(builtin_tool_named("scheduler_runs_list"), Some(RuntimeTool::SchedulerRunsList)));
    assert!(builtin_tool_named("mcp__fs__read").is_none());
    assert!(builtin_tool_named("Bash").is_none());
}

#[test]
fn batch_calls_are_checked() {
    let call = |tool: Option<&str>, obj: bool| BatchCall { tool: tool.map(str::to_string), arguments_is_object: obj };
    match check_batch_call(0, &call(Some(" web_fetch "), true)).unwrap() {
        BatchStep::Run { tool } => assert_eq!(tool, "web_fetch"),
        other => panic!("unexpected {:?}", other),
    }
    match check_batch_call(1, &call(Some("bash"), true)).unwrap() {
        BatchStep::NotAllowed { tool } => assert_eq!(tool, "bash"),
        other => panic!("unexpected {:?}", other),
    }
    assert_eq!(check_batch_call(2, &call(None, true)).unwrap_err(), "tool_calls[2].tool is required");
    assert_eq!(check_batch_call(12, &call(Some("todo_read"), false)).unwrap_err(), "tool_calls[12].arguments must be an object");
    assert!(matches!(batch_tool("todo_read"), Ok(RuntimeTool::TodoRead)));
    assert!(matches!(batch_tool("browser"), Ok(RuntimeTool::Browser)));
    assert_eq!(batch_tool("bash").err().unwrap(), "Unsupported batch tool: bash");
}

fn mcp_tool(server: &str, name: &str, description: &str, schema: Option<&str>) -> McpToolInfo {
    McpToolInfo {
        server: server.to_string(),
        name: name.to_string(),
        description: description.to_string(),
        input_schema: schema.map(|s| s.to_string()),
    }
}

#[test]
fn catalog_offers_workspace_mcp_skill_then_core_tools() {
    let mcp = vec![mcp_tool("fs", "read", "", None), mcp_tool("fs", "read", "Reads", Some("{\"type\":\"object\"}")), mcp_tool("git", "log", "", None)];
    let catalog = runtime_tool_catalog(&mcp, true, "/work");
    assert_eq!(catalog.len(), 14 + 3 + 4 + 16);
    assert_eq!(catalog[0].name, "workspace_list_directory");
    assert_eq!(catalog[4].name, "workspace_apply_patch");
    assert_eq!(catalog[9].name, "bash");
    assert_eq!(catalog[13].name, "workspace_process_terminate");
    assert_eq!(catalog[14].name, "mcp__fs__read");
    assert_eq!(catalog[15].name, "mcp__fs__read_1");
    assert_eq!(catalog[16].name, "mcp__git__log");
    assert_eq!(catalog[17].name, "skill_install_from_repo");
    assert_eq!(catalog[21].name, "core_batch");
    assert_eq!(catalog[36].name, "agents_list");
    for entry in &catalog[..14] {
        assert_eq!(builtin_name_of(&entry.tool), Some(entry.name.as_str()));
    }
    let p = catalog_lookup(&catalog, "mcp__fs__read_1").unwrap();
    match &catalog[p].tool {
        RuntimeTool::Mcp { server_name, tool_name } => {
            assert_eq!(server_name, "fs");
            assert_eq!(tool_name, "read");
        }
        _ => panic!("expected an MCP tool"),
    }
    let p = catalog_lookup(&catalog, "web_search").unwrap();
    assert!(matches!(catalog[p].tool, RuntimeTool::WebSearch));
    assert!(catalog_lookup(&catalog, "scheduler_jobs_list").is_none());
    assert!(catalog_lookup(&catalog, "nope").is_none());
}

#[test]
fn desktop_tool_only_where_supported() {
    let with = runtime_tool_catalog(&Vec::new(), true, "/w");
    let without = runtime_tool_catalog(&Vec::new(), false, "/w");
    assert_eq!(with.len(), without.len() + 1);
    assert!(catalog_lookup(&with, "desktop").is_some());
    assert!(catalog_lookup(&without, "desktop").is_none());
    assert_eq!(without[14 + 4 + 8].name, "image_probe");
    let p = catalog_lookup(&without, "bash").unwrap();
    assert!(matches!(without[p].tool, RuntimeTool::WorkspaceRunCommand));
}

#[test]
fn catalog_entries_carry_descriptions_and_schemas() {
    let mcp = vec![mcp_tool("fs", "read", "", None), mcp_tool("fs", "list", "Lists", Some("{\"type\":\"object\",\"properties\":{}}"))];
    let catalog = runtime_tool_catalog(&mcp, false, "/home/me/project");
    assert!(catalog[0].description.ends_with("Workspace root: /home/me/project"));
    assert!(catalog[0].description.starts_with("List direct children of a directory"));
    assert_eq!(catalog[14].description, "MCP tool read from fs");
    assert_eq!(catalog[14].parameters, "{\"properties\":{},\"type\":\"object\"}");
    assert_eq!(catalog[15].description, "Lists");
    assert_eq!(catalog[15].parameters, "{\"type\":\"object\",\"properties\":{}}");
    for entry in &catalog {
        let schema: serde_json::Value = serde_json::from_str(&entry.parameters).unwrap();
        assert_eq!(schema["type"], "object");
        assert!(!entry.description.is_empty());
    }
    let p = catalog_lookup(&catalog, "workspace_read_file").unwrap();
    let schema: serde_json::Value = serde_json::from_str(&catalog[p].parameters).unwrap();
    assert_eq!(schema["properties"]["max_bytes"]["type"], "integer");
}
