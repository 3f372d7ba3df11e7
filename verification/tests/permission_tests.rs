use petool_core::config::{Config, DesktopApprovalMode, ToolPathPermissionRule, ToolPermissionAction};
use petool_core::permissions::{
    batch_call_targets_are_safe, evaluate_tool_rule_match_score, extract_tool_path_argument,
    is_tool_allowed_by_scheduler_whitelist, normalize_tool_name_for_permission,
    resolve_background_tool_execution_decision, resolve_desktop_permission_action,
    resolve_tool_execution_decision, resolve_tool_permission_action, should_auto_allow_batch_tool,
    wildcard_match, wildcard_to_regex, ToolApprovalDecision,
};

fn config() -> Config {
    Config::default_with("/tmp/Downloads".to_string(), true)
}

#[test]
fn wildcards_match_whole_values() {
    assert!(wildcard_match("workspace_*", "workspace_read_file"));
    assert!(!wildcard_match("workspace_*", "my_workspace_read"));
    assert!(wildcard_match("a?c", "abc"));
    assert!(!wildcard_match("a?c", "abbc"));
    assert!(wildcard_match("file.txt", "file.txt"));
    assert!(!wildcard_match("file.txt", "fileXtxt"));
    assert!(wildcard_match("C:\\data\\*", "C:\\data\\x.csv"));
    assert_eq!(wildcard_to_regex("a.b*?"), "^a\\.b.*.$");
}

#[test]
fn mcp_tools_share_one_permission_name() {
    assert_eq!(normalize_tool_name_for_permission("mcp__fs__read"), "mcp__*");
    assert_eq!(normalize_tool_name_for_permission("bash"), "bash");
    assert_eq!(evaluate_tool_rule_match_score("mcp__*", "mcp__fs__read"), Some(6));
    assert_eq!(evaluate_tool_rule_match_score("bash", "bash"), Some(4));
    assert_eq!(evaluate_tool_rule_match_score("web_*", "bash"), None);
    assert_eq!(evaluate_tool_rule_match_score("é*", "éa"), Some(3));
}

#[test]
fn longest_matching_rule_decides() {
    let mut c = config();
    c.tool_permissions = vec![
        ("*".to_string(), ToolPermissionAction::Allow),
        ("workspace_*".to_string(), ToolPermissionAction::Deny),
        ("workspace_read_file".to_string(), ToolPermissionAction::Ask),
    ];
    assert_eq!(resolve_tool_permission_action(&c, "workspace_read_file", None), ToolPermissionAction::Ask);
    assert_eq!(resolve_tool_permission_action(&c, "workspace_write_file", None), ToolPermissionAction::Deny);
    assert_eq!(resolve_tool_permission_action(&c, "bash", None), ToolPermissionAction::Allow);
    c.tool_permissions.clear();
    assert_eq!(resolve_tool_permission_action(&c, "bash", None), ToolPermissionAction::Ask);
}

#[test]
fn equally_long_rules_last_one_wins() {
    let mut c = config();
    c.tool_permissions = vec![
        ("bas?".to_string(), ToolPermissionAction::Deny),
        ("bash".to_string(), ToolPermissionAction::Allow),
    ];
    assert_eq!(resolve_tool_permission_action(&c, "bash", None), ToolPermissionAction::Allow);
}

#[test]
fn path_rules_override_tool_rules() {
    let mut c = config();
    c.tool_permissions = vec![("workspace_*".to_string(), ToolPermissionAction::Allow)];
    c.tool_path_permissions = vec![
        ToolPathPermissionRule {
            tool_pattern: "workspace_*".to_string(),
            path_pattern: "/secret/*".to_string(),
            action: ToolPermissionAction::Deny,
        },
    ];
    assert_eq!(
        resolve_tool_permission_action(&c, "workspace_read_file", Some("/secret/key.pem")),
        ToolPermissionAction::Deny
    );
    assert_eq!(
        resolve_tool_permission_action(&c, "workspace_read_file", Some("/home/a.txt")),
        ToolPermissionAction::Allow
    );
    assert_eq!(resolve_tool_permission_action(&c, "workspace_read_file", None), ToolPermissionAction::Allow);
}

#[test]
fn desktop_mode_refines_ask_only() {
    let mut c = config();
    assert_eq!(
        resolve_desktop_permission_action(&c, "desktop", Some(" list_windows "), ToolPermissionAction::Ask),
        ToolPermissionAction::Allow
    );
    assert_eq!(
        resolve_desktop_permission_action(&c, "desktop", Some("click"), ToolPermissionAction::Ask),
        ToolPermissionAction::Ask
    );
    assert_eq!(
        resolve_desktop_permission_action(&c, "desktop", None, ToolPermissionAction::Ask),
        ToolPermissionAction::Ask
    );
    assert_eq!(
        resolve_desktop_permission_action(&c, "desktop", Some("click"), ToolPermissionAction::Deny),
        ToolPermissionAction::Deny
    );
    assert_eq!(
        resolve_desktop_permission_action(&c, "bash", Some("status"), ToolPermissionAction::Ask),
        ToolPermissionAction::Ask
    );
    c.desktop.approval_mode = DesktopApprovalMode::AlwaysAllow;
    assert_eq!(
        resolve_desktop_permission_action(&c, "desktop", Some("click"), ToolPermissionAction::Ask),
        ToolPermissionAction::Allow
    );
    c.desktop.approval_mode = DesktopApprovalMode::AlwaysAsk;
    assert_eq!(
        resolve_desktop_permission_action(&c, "desktop", Some("status"), ToolPermissionAction::Ask),
        ToolPermissionAction::Ask
    );
}

#[test]
fn batch_safety_requires_read_only_tools() {
    assert!(should_auto_allow_batch_tool("workspace_read_file"));
    assert!(!should_auto_allow_batch_tool("bash"));
    let safe = vec![Some(" web_fetch ".to_string()), Some("todo_read".to_string())];
    assert!(batch_call_targets_are_safe(Some(&safe)));
    let unsafe_calls = vec![Some("web_fetch".to_string()), Some("bash".to_string())];
    assert!(!batch_call_targets_are_safe(Some(&unsafe_calls)));
    assert!(!batch_call_targets_are_safe(Some(&vec![])));
    assert!(!batch_call_targets_are_safe(Some(&vec![None])));
    assert!(!batch_call_targets_are_safe(None));
}

#[test]
fn path_argument_is_first_non_blank_candidate() {
    let candidates = vec![None, Some("  ".to_string()), Some(" /tmp/a ".to_string()), Some("/b".to_string())];
    assert_eq!(extract_tool_path_argument(&candidates), Some("/tmp/a".to_string()));
    assert_eq!(extract_tool_path_argument(&vec![None, None]), None);
}

#[test]
fn scheduler_whitelist_checks_names_patterns_and_paths() {
    let list = vec!["web_*".to_string(), "todo_read".to_string(), "/work/*".to_string()];
    assert!(is_tool_allowed_by_scheduler_whitelist(&list, "todo_read", None));
    assert!(is_tool_allowed_by_scheduler_whitelist(&list, "web_search", None));
    assert!(is_tool_allowed_by_scheduler_whitelist(&list, "workspace_read_file", Some("/work/x")));
    assert!(!is_tool_allowed_by_scheduler_whitelist(&list, "bash", Some("/etc/passwd")));
    assert!(!is_tool_allowed_by_scheduler_whitelist(&vec![], "todo_read", None));
}

#[test]
fn background_runs_deny_what_needs_asking() {
    let mut c = config();
    c.tool_permissions = vec![("bash".to_string(), ToolPermissionAction::Deny)];
    let none: Vec<String> = vec![];
    assert_eq!(
        resolve_background_tool_execution_decision(&c, "bash", None, None, &none, None),
        ToolApprovalDecision::Deny
    );
    assert_eq!(
        resolve_background_tool_execution_decision(&c, "web_fetch", None, None, &none, None),
        ToolApprovalDecision::Deny
    );
    let allowed = vec!["web_fetch".to_string()];
    assert_eq!(
        resolve_background_tool_execution_decision(&c, "web_fetch", None, None, &allowed, None),
        ToolApprovalDecision::AllowAlways
    );
    let whitelist = vec!["web_*".to_string()];
    assert_eq!(
        resolve_background_tool_execution_decision(&c, "web_fetch", None, None, &none, Some(&whitelist)),
        ToolApprovalDecision::AllowAlways
    );
    assert_eq!(
        resolve_background_tool_execution_decision(&c, "bash", None, None, &none, Some(&vec!["bash".to_string()])),
        ToolApprovalDecision::Deny
    );
    c.auto_approve_tool_requests = true;
    assert_eq!(
        resolve_background_tool_execution_decision(&c, "web_fetch", None, None, &none, None),
        ToolApprovalDecision::AllowAlways
    );
}

#[test]
fn interactive_runs_ask_unless_decided() {
    let mut c = config();
    let none: Vec<String> = vec![];
    assert_eq!(resolve_tool_execution_decision(&c, "bash", None, None, &none, false), None);
    assert_eq!(
        resolve_tool_execution_decision(&c, "core_batch", None, None, &none, true),
        Some(ToolApprovalDecision::AllowOnce)
    );
    assert_eq!(resolve_tool_execution_decision(&c, "core_batch", None, None, &none, false), None);
    assert_eq!(
        resolve_tool_execution_decision(&c, "workspace_parse_pdf_markdown", None, None, &none, false),
        Some(ToolApprovalDecision::AllowOnce)
    );
    assert_eq!(
        resolve_tool_execution_decision(&c, "bash", None, None, &vec!["bash".to_string()], false),
        Some(ToolApprovalDecision::AllowAlways)
    );
    c.tool_permissions = vec![("bash".to_string(), ToolPermissionAction::Deny)];
    c.auto_approve_tool_requests = true;
    assert_eq!(
        resolve_tool_execution_decision(&c, "bash", None, None, &none, false),
        Some(ToolApprovalDecision::Deny)
    );
    assert_eq!(
        resolve_tool_execution_decision(&c, "web_fetch", None, None, &none, false),
        Some(ToolApprovalDecision::AllowAlways)
    );
}
