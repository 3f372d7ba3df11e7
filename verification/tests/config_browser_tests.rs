use petool_core::browser::{
    browser_action_blocked, navigate_max_links, resolve_browser_profile,
    candidate_node_binaries, candidate_sidecar_entries, resolve_node_binary,
    format_launch_help, resolve_sidecar_entry, resolve_sidecar_launch_spec, sanitize_profile_name,
    sanitize_stderr_line,
};
use petool_core::config::{AutomationCloseBehavior, BrowserConfig, Config, DesktopApprovalMode};

#[test]
fn default_config_includes_browser_defaults() {
    let config = Config::default_with("/home/user/Downloads".to_string(), false);
    assert!(!config.auto_approve_tool_requests);
    assert!(!config.autostart_enabled);
    assert!(config.downloads_directory.is_some());
    assert!(!config.notifications.sound_enabled);
    assert!(config.notifications.break_reminder_enabled);
    assert!(config.notifications.task_completed_enabled);
    assert_eq!(config.clawhub_api_base, Some("https://clawhub.ai".to_string()));
    assert!(config.browser.enabled);
    assert_eq!(config.browser.default_profile, "openclaw");
    assert_eq!(config.browser.performance_preset, "balanced");
    assert!(!config.browser.capture_response_bodies);
    assert_eq!(config.browser.default_act_timeout_ms, 1_400);
    assert_eq!(config.browser.operation_timeout_ms, 20_000);
    assert!(config.browser.profiles.iter().any(|(name, _)| name == "openclaw"));
    let profile = &config.browser.profiles.iter().find(|(name, _)| name == "openclaw").unwrap().1;
    assert_eq!(profile.color, "#FF6A00");
    assert_eq!(profile.viewport.width, 1280);
    assert_eq!(profile.viewport.height, 800);
    assert_eq!(config.desktop.operation_timeout_ms, 20_000);
    assert_eq!(config.desktop.control_cache_ttl_ms, 120_000);
    assert_eq!(config.desktop.max_controls, 800);
    assert_eq!(config.desktop.screenshot_keep_count, 200);
    assert_eq!(config.desktop.approval_mode, DesktopApprovalMode::HighRiskOnly);
    assert!(config.automation.enabled);
    assert_eq!(config.automation.max_concurrent_runs, 1);
    assert_eq!(config.automation.close_behavior, AutomationCloseBehavior::Ask);
    assert!(config.automation.heartbeat.enabled);
    assert_eq!(config.automation.heartbeat.every_minutes, 30);
    assert!(!config.automation.heartbeat.tool_whitelist.is_empty());
}

#[test]
fn desktop_control_is_enabled_on_windows_only() {
    assert!(Config::default_with("/tmp/Downloads".to_string(), true).desktop.enabled);
    assert!(!Config::default_with("/tmp/Downloads".to_string(), false).desktop.enabled);
}

#[test]
fn sanitize_profile_name_normalizes_invalid_chars() {
    assert_eq!(sanitize_profile_name("Open Claw@123"), "open-claw-123");
    assert_eq!(sanitize_profile_name(""), "openclaw");
    assert_eq!(sanitize_profile_name("___"), "___");
}

#[test]
fn sanitize_profile_name_strips_dashes_and_unicode() {
    assert_eq!(sanitize_profile_name("--Work--"), "work");
    assert_eq!(sanitize_profile_name("日本"), "openclaw");
    assert_eq!(sanitize_profile_name("a.b"), "a-b");
}

#[test]
fn launch_help_lists_program_arguments_and_stderr() {
    let text = format_launch_help("node", &["index.mjs".to_string(), "--x".to_string()], "boom");
    assert_eq!(
        text,
        "Failed to start browser sidecar.\nProgram: node index.mjs --x\nStderr: boom\nHints: run scripts/browser/prepare-sidecar.mjs and configure browser executable_path or cdp_url."
    );
    let bare = format_launch_help("node", &[], "");
    assert!(bare.starts_with("Failed to start browser sidecar.\nProgram: node\nStderr: \n"));
}

#[test]
fn sidecar_entry_is_first_existing_candidate() {
    let candidates = vec!["a".to_string(), "b".to_string(), "c".to_string()];
    assert_eq!(resolve_sidecar_entry(&candidates, &vec![false, true, true]), Ok("b".to_string()));
    let missing = resolve_sidecar_entry(&candidates, &vec![false, false, false]).unwrap_err();
    assert!(missing.starts_with("Browser sidecar entry not found."));
}

#[test]
fn launch_spec_prefers_bundled_node() {
    let spec = resolve_sidecar_launch_spec(Ok("entry.mjs".to_string()), None).unwrap();
    assert_eq!(spec.program, "node");
    assert_eq!(spec.args, vec!["entry.mjs".to_string()]);
    let bundled = resolve_sidecar_launch_spec(Ok("entry.mjs".to_string()), Some("/opt/node".to_string())).unwrap();
    assert_eq!(bundled.program, "/opt/node");
    assert!(resolve_sidecar_launch_spec(Err("no entry".to_string()), None).is_err());
}

#[test]
fn stderr_lines_with_secrets_are_redacted() {
    assert_eq!(sanitize_stderr_line("Authorization: Bearer abc"), "[redacted]");
    assert_eq!(sanitize_stderr_line("listening on 9222"), "listening on 9222");
    assert_eq!(sanitize_stderr_line("bad PASSWORD"), "[redacted]");
}

#[test]
fn sidecar_candidates_in_search_order() {
    let c = candidate_sidecar_entries(Some("/x/entry.mjs".to_string()), Some("/work"), Some("/app/bin"));
    assert_eq!(
        c,
        vec![
            "/x/entry.mjs".to_string(),
            "/work/browser-sidecar/dist/index.mjs".to_string(),
            "/work/browser-sidecar/src/index.mjs".to_string(),
            "/app/bin/resources/browser-sidecar/dist/index.mjs".to_string(),
            "/app/bin/browser-sidecar/dist/index.mjs".to_string(),
            "/app/bin/../Resources/browser-sidecar/dist/index.mjs".to_string(),
        ]
    );
    assert!(candidate_sidecar_entries(None, None, None).is_empty());
}

#[test]
fn node_binary_candidates_and_choice() {
    assert_eq!(candidate_node_binaries(Some("/app"), None, None, false), vec!["/app/browser-node".to_string()]);
    assert_eq!(
        candidate_node_binaries(Some("/app"), Some("x86_64-pc-windows-msvc".to_string()), Some("ignored".to_string()), true),
        vec![
            "/app/browser-node.exe".to_string(),
            "/app/browser-node-x86_64-pc-windows-msvc.exe".to_string(),
            "/app/binaries/browser-node-x86_64-pc-windows-msvc.exe".to_string(),
        ]
    );
    assert_eq!(
        candidate_node_binaries(Some("/app"), None, Some("aarch64".to_string()), false)[1],
        "/app/browser-node-aarch64"
    );
    assert!(candidate_node_binaries(None, None, None, false).is_empty());
    let cands = vec!["/a".to_string(), "/b".to_string()];
    assert_eq!(resolve_node_binary(Some("/env".to_string()), true, &cands, &vec![true, true]).as_deref(), Some("/env"));
    assert_eq!(resolve_node_binary(Some("/env".to_string()), false, &cands, &vec![false, true]).as_deref(), Some("/b"));
    assert_eq!(resolve_node_binary(None, false, &cands, &vec![false, false]), None);
}

#[test]
fn browser_profiles_resolve_with_fallbacks() {
    let mut config = BrowserConfig::default();
    assert_eq!(resolve_browser_profile(None, &config).unwrap(), "openclaw");
    assert_eq!(resolve_browser_profile(Some("Open Claw"), &config).unwrap(), "openclaw");
    let profile = config.profiles[0].1.clone();
    config.profiles.push(("work".to_string(), profile));
    assert_eq!(resolve_browser_profile(Some("WORK"), &config).unwrap(), "work");
    config.default_profile = "missing".to_string();
    let chosen = resolve_browser_profile(Some("other"), &config).unwrap();
    assert!(chosen == "openclaw" || chosen == "work");
    config.profiles.clear();
    assert_eq!(resolve_browser_profile(None, &config).err().unwrap(), "No browser profiles configured");
}

#[test]
fn browser_policy_and_link_limits() {
    assert!(browser_action_blocked("evaluate", false));
    assert!(!browser_action_blocked("evaluate", true));
    assert!(!browser_action_blocked("navigate", false));
    assert_eq!(navigate_max_links(None), 30);
    assert_eq!(navigate_max_links(Some(0)), 1);
    assert_eq!(navigate_max_links(Some(500)), 200);
}

#[test]
fn sanitized_profile_names_are_clean_and_stable() {
    for raw in ["Open Claw@123", "--Work--", "___", "", "日本"] {
        let once = sanitize_profile_name(raw);
        assert!(!once.is_empty());
        assert!(once.chars().all(|c| c.is_ascii_lowercase() || c.is_ascii_digit() || c == '-' || c == '_'));
        assert!(!once.starts_with('-') && !once.ends_with('-'));
        assert_eq!(sanitize_profile_name(&once), once);
    }
}
