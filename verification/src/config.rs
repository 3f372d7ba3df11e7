//! The application configuration and its defaults.
//!
//! Maps keyed by name are kept as vectors of `(key, value)` pairs in the
//! order the entries were read, without repeated keys.

use vstd::prelude::*;
use crate::text::owned;

verus! {

/// The views of a list of strings.
pub open spec fn str_views(v: Seq<String>) -> Seq<Seq<char>> {
    v.map_values(|s: String| s@)
}

pub fn default_tool_display_mode() -> (r: String)
    ensures
        r@ == "compact"@,
{
    owned("compact")
}

pub fn default_automation_enabled() -> (r: bool)
    ensures
        r,
{
    true
}

pub fn default_autostart_enabled() -> (r: bool)
    ensures
        !r,
{
    false
}

pub fn default_notification_sound_enabled() -> (r: bool)
    ensures
        !r,
{
    false
}

pub fn default_notification_break_reminder_enabled() -> (r: bool)
    ensures
        r,
{
    true
}

pub fn default_notification_task_completed_enabled() -> (r: bool)
    ensures
        r,
{
    true
}

pub fn default_automation_max_concurrent_runs() -> (r: u32)
    ensures
        r == 1,
{
    1
}

pub fn default_automation_close_behavior() -> (r: AutomationCloseBehavior)
    ensures
        r == AutomationCloseBehavior::Ask,
{
    AutomationCloseBehavior::Ask
}

pub fn default_heartbeat_enabled() -> (r: bool)
    ensures
        r,
{
    true
}

pub fn default_heartbeat_every_minutes() -> (r: u32)
    ensures
        r == 30,
{
    30
}

pub fn default_heartbeat_prompt() -> (r: String)
    ensures
        r@ == "Read HEARTBEAT.md if it exists in workspace and check pending tasks. If nothing needs attention, reply HEARTBEAT_OK."@,
{
    owned(
        "Read HEARTBEAT.md if it exists in workspace and check pending tasks. If nothing needs attention, reply HEARTBEAT_OK.",
    )
}

/// The tools a scheduled run may use unless configured otherwise.
pub open spec fn default_whitelist_names() -> Seq<Seq<char>> {
    seq![
        "workspace_list_directory"@,
        "workspace_read_file"@,
        "workspace_glob"@,
        "workspace_grep"@,
        "workspace_codesearch"@,
        "workspace_lsp_symbols"@,
        "web_fetch"@,
        "web_search"@,
        "sessions_list"@,
        "sessions_history"@,
        "sessions_send"@,
        "sessions_spawn"@,
        "workspace_write_file"@,
        "workspace_edit_file"@,
        "workspace_apply_patch"@,
    ]
}

/// Builds the default tool whitelist of scheduled and heartbeat runs.
pub fn default_whitelist() -> (r: Vec<String>)
    ensures
        str_views(r@) == default_whitelist_names(),
{
    let mut v: Vec<String> = Vec::new();
    v.push(owned("workspace_list_directory"));
    v.push(owned("workspace_read_file"));
    v.push(owned("workspace_glob"));
    v.push(owned("workspace_grep"));
    v.push(owned("workspace_codesearch"));
    v.push(owned("workspace_lsp_symbols"));
    v.push(owned("web_fetch"));
    v.push(owned("web_search"));
    v.push(owned("sessions_list"));
    v.push(owned("sessions_history"));
    v.push(owned("sessions_send"));
    v.push(owned("sessions_spawn"));
    v.push(owned("workspace_write_file"));
    v.push(owned("workspace_edit_file"));
    v.push(owned("workspace_apply_patch"));
    assert(str_views(v@) =~= default_whitelist_names());
    v
}

pub fn default_heartbeat_tool_whitelist() -> (r: Vec<String>)
    ensures
        str_views(r@) == default_whitelist_names(),
{
    default_whitelist()
}

pub fn default_browser_enabled() -> (r: bool)
    ensures
        r,
{
    true
}

pub fn default_browser_default_profile() -> (r: String)
    ensures
        r@ == "openclaw"@,
{
    owned("openclaw")
}

pub fn default_clawhub_api_base() -> (r: String)
    ensures
        r@ == "https://clawhub.ai"@,
{
    owned("https://clawhub.ai")
}

pub fn default_clawhub_api_base_option() -> (r: Option<String>)
    ensures
        r matches Some(s) && s@ == "https://clawhub.ai"@,
{
    Some(default_clawhub_api_base())
}

pub fn default_ark_api_base() -> (r: String)
    ensures
        r@ == "https://ark.cn-beijing.volces.com/api/v3"@,
{
    owned("https://ark.cn-beijing.volces.com/api/v3")
}

pub fn default_ark_api_base_option() -> (r: Option<String>)
    ensures
        r matches Some(s) && s@ == "https://ark.cn-beijing.volces.com/api/v3"@,
{
    Some(default_ark_api_base())
}

pub fn default_image_model() -> (r: String)
    ensures
        r@ == "doubao-seedream-4-5-251128"@,
{
    owned("doubao-seedream-4-5-251128")
}

pub fn default_image_understand_model() -> (r: String)
    ensures
        r@ == "glm-4.6v"@,
{
    owned("glm-4.6v")
}

pub fn default_video_model() -> (r: String)
    ensures
        r@ == "doubao-seedance-1-0-pro-250528"@,
{
    owned("doubao-seedance-1-0-pro-250528")
}

pub fn default_image_size() -> (r: String)
    ensures
        r@ == "2K"@,
{
    owned("2K")
}

pub fn default_image_watermark() -> (r: bool)
    ensures
        r,
{
    true
}

pub fn default_browser_operation_timeout_ms() -> (r: u64)
    ensures
        r == 20_000,
{
    20_000
}

pub fn default_browser_performance_preset() -> (r: String)
    ensures
        r@ == "balanced"@,
{
    owned("balanced")
}

pub fn default_browser_capture_response_bodies() -> (r: bool)
    ensures
        !r,
{
    false
}

pub fn default_browser_default_act_timeout_ms() -> (r: u64)
    ensures
        r == 1_400,
{
    1_400
}

/// Desktop control is on by default on Windows only.
pub fn default_desktop_enabled(target_is_windows: bool) -> (r: bool)
    ensures
        r == target_is_windows,
{
    target_is_windows
}

pub fn default_desktop_operation_timeout_ms() -> (r: u64)
    ensures
        r == 20_000,
{
    20_000
}

pub fn default_desktop_control_cache_ttl_ms() -> (r: u64)
    ensures
        r == 120_000,
{
    120_000
}

pub fn default_desktop_max_controls() -> (r: usize)
    ensures
        r == 800,
{
    800
}

pub fn default_desktop_screenshot_keep_count() -> (r: usize)
    ensures
        r == 200,
{
    200
}

pub fn default_openclaw_color() -> (r: String)
    ensures
        r@ == "#FF6A00"@,
{
    owned("#FF6A00")
}

/// Notification switches.
#[derive(Debug, Clone)]
pub struct NotificationSettingsConfig {
    pub sound_enabled: bool,
    pub break_reminder_enabled: bool,
    pub task_completed_enabled: bool,
}

impl Default for NotificationSettingsConfig {
    fn default() -> (r: Self)
        ensures
            !r.sound_enabled && r.break_reminder_enabled && r.task_completed_enabled,
    {
        NotificationSettingsConfig {
            sound_enabled: default_notification_sound_enabled(),
            break_reminder_enabled: default_notification_break_reminder_enabled(),
            task_completed_enabled: default_notification_task_completed_enabled(),
        }
    }
}

/// What closing the main window does.
#[derive(Debug, Clone, Copy, PartialEq, Eq, Structural)]
pub enum AutomationCloseBehavior {
    Ask,
    MinimizeToTray,
    Exit,
}

impl Default for AutomationCloseBehavior {
    fn default() -> (r: Self)
        ensures
            r == AutomationCloseBehavior::Ask,
    {
        default_automation_close_behavior()
    }
}

/// The periodic heartbeat run.
#[derive(Debug, Clone)]
pub struct HeartbeatAutomationConfig {
    pub enabled: bool,
    pub every_minutes: u32,
    pub target_conversation_id: Option<String>,
    pub prompt: String,
    pub model: Option<String>,
    pub workspace_directory: Option<String>,
    pub tool_whitelist: Vec<String>,
}

impl Default for HeartbeatAutomationConfig {
    fn default() -> (r: Self)
        ensures
            r.enabled,
            r.every_minutes == 30,
            r.target_conversation_id is None,
            r.prompt@ == "Read HEARTBEAT.md if it exists in workspace and check pending tasks. If nothing needs attention, reply HEARTBEAT_OK."@,
            r.model is None,
            r.workspace_directory is None,
            str_views(r.tool_whitelist@) == default_whitelist_names(),
    {
        HeartbeatAutomationConfig {
            enabled: default_heartbeat_enabled(),
            every_minutes: default_heartbeat_every_minutes(),
            target_conversation_id: None,
            prompt: default_heartbeat_prompt(),
            model: None,
            workspace_directory: None,
            tool_whitelist: default_heartbeat_tool_whitelist(),
        }
    }
}

/// Background automation settings.
#[derive(Debug, Clone)]
pub struct AutomationConfig {
    pub enabled: bool,
    pub max_concurrent_runs: u32,
    pub close_behavior: AutomationCloseBehavior,
    pub heartbeat: HeartbeatAutomationConfig,
}

impl Default for AutomationConfig {
    fn default() -> (r: Self)
        ensures
            r.enabled,
            r.max_concurrent_runs == 1,
            r.close_behavior == AutomationCloseBehavior::Ask,
            r.heartbeat.enabled && r.heartbeat.every_minutes == 30,
            r.heartbeat.target_conversation_id is None,
            str_views(r.heartbeat.tool_whitelist@) == default_whitelist_names(),
    {
        AutomationConfig {
            enabled: default_automation_enabled(),
            max_concurrent_runs: default_automation_max_concurrent_runs(),
            close_behavior: default_automation_close_behavior(),
            heartbeat: HeartbeatAutomationConfig::default(),
        }
    }
}

/// What a permission rule decides.
#[derive(Debug, Clone, Copy, PartialEq, Eq, Structural)]
pub enum ToolPermissionAction {
    Allow,
    Ask,
    Deny,
}

/// A permission rule on a tool and a path, both wildcard patterns.
#[derive(Debug, Clone)]
pub struct ToolPathPermissionRule {
    pub tool_pattern: String,
    pub path_pattern: String,
    pub action: ToolPermissionAction,
}

/// How to reach an MCP server.
#[derive(Debug, Clone)]
pub enum McpTransport {
    Stdio { command: String, args: Vec<String> },
    Http { url: String },
}

/// A configured MCP server.
#[derive(Debug, Clone)]
pub struct McpServerConfig {
    pub name: String,
    pub transport: McpTransport,
    pub enabled: bool,
}

/// Browser family of a profile.
#[derive(Debug, Clone, Copy, PartialEq, Eq, Structural)]
pub enum BrowserEngine {
    Chrome,
    Chromium,
}

impl Default for BrowserEngine {
    fn default() -> (r: Self)
        ensures
            r == BrowserEngine::Chrome,
    {
        BrowserEngine::Chrome
    }
}

/// When desktop actions need the user's approval.
#[derive(Debug, Clone, Copy, PartialEq, Eq, Structural)]
pub enum DesktopApprovalMode {
    HighRiskOnly,
    AlwaysAsk,
    AlwaysAllow,
}

impl Default for DesktopApprovalMode {
    fn default() -> (r: Self)
        ensures
            r == DesktopApprovalMode::HighRiskOnly,
    {
        DesktopApprovalMode::HighRiskOnly
    }
}

/// Desktop automation settings.
#[derive(Debug, Clone)]
pub struct DesktopConfig {
    pub enabled: bool,
    pub operation_timeout_ms: u64,
    pub control_cache_ttl_ms: u64,
    pub max_controls: usize,
    pub screenshot_dir: Option<String>,
    pub screenshot_keep_count: usize,
    pub approval_mode: DesktopApprovalMode,
}

impl DesktopConfig {
    /// The defaults; desktop control is enabled on Windows only.
    pub fn default_for_platform(target_is_windows: bool) -> (r: Self)
        ensures
            r.enabled == target_is_windows,
            r.operation_timeout_ms == 20_000,
            r.control_cache_ttl_ms == 120_000,
            r.max_controls == 800,
            r.screenshot_dir is None,
            r.screenshot_keep_count == 200,
            r.approval_mode == DesktopApprovalMode::HighRiskOnly,
    {
        DesktopConfig {
            enabled: default_desktop_enabled(target_is_windows),
            operation_timeout_ms: default_desktop_operation_timeout_ms(),
            control_cache_ttl_ms: default_desktop_control_cache_ttl_ms(),
            max_controls: default_desktop_max_controls(),
            screenshot_dir: None,
            screenshot_keep_count: default_desktop_screenshot_keep_count(),
            approval_mode: DesktopApprovalMode::default(),
        }
    }
}

/// Browser window size.
#[derive(Debug, Clone)]
pub struct BrowserViewport {
    pub width: u32,
    pub height: u32,
}

impl Default for BrowserViewport {
    fn default() -> (r: Self)
        ensures
            r.width == 1280 && r.height == 800,
    {
        BrowserViewport { width: 1280, height: 800 }
    }
}

/// A browser profile.
#[derive(Debug, Clone)]
pub struct BrowserProfileConfig {
    pub engine: BrowserEngine,
    pub headless: bool,
    pub executable_path: Option<String>,
    pub cdp_url: Option<String>,
    pub user_data_dir: Option<String>,
    pub color: String,
    pub viewport: BrowserViewport,
}

impl Default for BrowserProfileConfig {
    fn default() -> (r: Self)
        ensures
            r.engine == BrowserEngine::Chrome,
            !r.headless,
            r.executable_path is None && r.cdp_url is None && r.user_data_dir is None,
            r.color@ == "#FF6A00"@,
            r.viewport.width == 1280 && r.viewport.height == 800,
    {
        BrowserProfileConfig {
            engine: BrowserEngine::Chrome,
            headless: false,
            executable_path: None,
            cdp_url: None,
            user_data_dir: None,
            color: default_openclaw_color(),
            viewport: BrowserViewport::default(),
        }
    }
}

/// The default browser profiles: one, named "openclaw".
pub fn default_browser_profiles() -> (r: Vec<(String, BrowserProfileConfig)>)
    ensures
        r@.len() == 1,
        r@[0].0@ == "openclaw"@,
        r@[0].1.color@ == "#FF6A00"@,
        r@[0].1.viewport.width == 1280 && r@[0].1.viewport.height == 800,
{
    let mut profiles: Vec<(String, BrowserProfileConfig)> = Vec::new();
    profiles.push((owned("openclaw"), BrowserProfileConfig::default()));
    profiles
}

/// Browser automation settings.
#[derive(Debug, Clone)]
pub struct BrowserConfig {
    pub enabled: bool,
    pub default_profile: String,
    pub evaluate_enabled: bool,
    pub allow_private_network: bool,
    pub performance_preset: String,
    pub capture_response_bodies: bool,
    pub default_act_timeout_ms: u64,
    pub operation_timeout_ms: u64,
    pub profiles: Vec<(String, BrowserProfileConfig)>,
}

impl Default for BrowserConfig {
    fn default() -> (r: Self)
        ensures
            r.enabled,
            r.default_profile@ == "openclaw"@,
            !r.evaluate_enabled && !r.allow_private_network,
            r.performance_preset@ == "balanced"@,
            !r.capture_response_bodies,
            r.default_act_timeout_ms == 1_400,
            r.operation_timeout_ms == 20_000,
            r.profiles@.len() == 1,
            r.profiles@[0].0@ == "openclaw"@,
            r.profiles@[0].1.color@ == "#FF6A00"@,
            r.profiles@[0].1.viewport.width == 1280 && r.profiles@[0].1.viewport.height == 800,
    {
        BrowserConfig {
            enabled: default_browser_enabled(),
            default_profile: default_browser_default_profile(),
            evaluate_enabled: false,
            allow_private_network: false,
            performance_preset: default_browser_performance_preset(),
            capture_response_bodies: default_browser_capture_response_bodies(),
            default_act_timeout_ms: default_browser_default_act_timeout_ms(),
            operation_timeout_ms: default_browser_operation_timeout_ms(),
            profiles: default_browser_profiles(),
        }
    }
}

/// The whole application configuration.
#[derive(Debug, Clone)]
pub struct Config {
    pub api_key: Option<String>,
    pub api_base: Option<String>,
    pub clawhub_api_key: Option<String>,
    pub clawhub_api_base: Option<String>,
    pub ark_api_key: Option<String>,
    pub ark_api_base: Option<String>,
    pub minimax_api_key: Option<String>,
    pub image_model: String,
    pub image_understand_model: String,
    pub video_model: String,
    pub image_size: String,
    pub image_watermark: bool,
    pub model: String,
    pub system_prompt: Option<String>,
    pub work_directory: Option<String>,
    pub conversation_workspaces: Vec<(String, String)>,
    pub theme: String,
    pub tool_display_mode: String,
    pub mcp_servers: Vec<McpServerConfig>,
    pub tool_permissions: Vec<(String, ToolPermissionAction)>,
    pub tool_path_permissions: Vec<ToolPathPermissionRule>,
    pub auto_approve_tool_requests: bool,
    pub autostart_enabled: bool,
    pub downloads_directory: Option<String>,
    pub notifications: NotificationSettingsConfig,
    pub browser: BrowserConfig,
    pub desktop: DesktopConfig,
    pub automation: AutomationConfig,
}

/// No key of a list of named entries occurs twice (the lists stand for
/// maps keyed by name).
pub open spec fn keys_distinct<V>(entries: Seq<(String, V)>) -> bool {
    forall|i: int, j: int| 0 <= i < j < entries.len() ==> #[trigger] entries[i].0@ != #[trigger] entries[j].0@
}

impl Config {
    /// The maps of the configuration hold each key once: the tool
    /// permission patterns, the conversations' workspaces and the browser
    /// profiles.
    pub open spec fn wf(&self) -> bool {
        &&& keys_distinct(self.tool_permissions@)
        &&& keys_distinct(self.conversation_workspaces@)
        &&& keys_distinct(self.browser.profiles@)
    }

    /// The default configuration. The downloads directory (which the
    /// default always sets) and the platform are facts of the machine,
    /// which the caller supplies.
    pub fn default_with(downloads_directory: String, target_is_windows: bool) -> (r: Self)
        ensures
            r.wf(),
            r.api_key is None,
            r.api_base matches Some(s) && s@ == "https://open.bigmodel.cn/api/paas/v4"@,
            r.clawhub_api_key is None,
            r.clawhub_api_base matches Some(s) && s@ == "https://clawhub.ai"@,
            r.ark_api_key is None,
            r.ark_api_base matches Some(s) && s@ == "https://ark.cn-beijing.volces.com/api/v3"@,
            r.minimax_api_key is None,
            r.image_model@ == "doubao-seedream-4-5-251128"@,
            r.image_understand_model@ == "glm-4.6v"@,
            r.video_model@ == "doubao-seedance-1-0-pro-250528"@,
            r.image_size@ == "2K"@,
            r.image_watermark,
            r.model@ == "glm-5"@,
            r.system_prompt is None && r.work_directory is None,
            r.conversation_workspaces@.len() == 0,
            r.theme@ == "light"@,
            r.tool_display_mode@ == "compact"@,
            r.mcp_servers@.len() == 0,
            r.tool_permissions@.len() == 0,
            r.tool_path_permissions@.len() == 0,
            !r.auto_approve_tool_requests,
            !r.autostart_enabled,
            r.downloads_directory matches Some(d) && d@ == downloads_directory@,
            !r.notifications.sound_enabled && r.notifications.break_reminder_enabled
                && r.notifications.task_completed_enabled,
            r.browser.enabled && r.browser.default_profile@ == "openclaw"@,
            r.browser.performance_preset@ == "balanced"@ && !r.browser.capture_response_bodies,
            r.browser.default_act_timeout_ms == 1_400 && r.browser.operation_timeout_ms == 20_000,
            r.browser.profiles@.len() == 1 && r.browser.profiles@[0].0@ == "openclaw"@,
            r.browser.profiles@[0].1.color@ == "#FF6A00"@,
            r.browser.profiles@[0].1.viewport.width == 1280,
            r.browser.profiles@[0].1.viewport.height == 800,
            r.desktop.enabled == target_is_windows,
            r.desktop.operation_timeout_ms == 20_000 && r.desktop.control_cache_ttl_ms == 120_000,
            r.desktop.max_controls == 800 && r.desktop.screenshot_keep_count == 200,
            r.desktop.approval_mode == DesktopApprovalMode::HighRiskOnly,
            r.automation.enabled && r.automation.max_concurrent_runs == 1,
            r.automation.close_behavior == AutomationCloseBehavior::Ask,
            r.automation.heartbeat.enabled && r.automation.heartbeat.every_minutes == 30,
            str_views(r.automation.heartbeat.tool_whitelist@) == default_whitelist_names(),
    {
        Config {
            api_key: None,
            api_base: Some(owned("https://open.bigmodel.cn/api/paas/v4")),
            clawhub_api_key: None,
            clawhub_api_base: Some(default_clawhub_api_base()),
            ark_api_key: None,
            ark_api_base: Some(default_ark_api_base()),
            minimax_api_key: None,
            image_model: default_image_model(),
            image_understand_model: default_image_understand_model(),
            video_model: default_video_model(),
            image_size: default_image_size(),
            image_watermark: default_image_watermark(),
            model: owned("glm-5"),
            system_prompt: None,
            work_directory: None,
            conversation_workspaces: Vec::new(),
            theme: owned("light"),
            tool_display_mode: default_tool_display_mode(),
            mcp_servers: Vec::new(),
            tool_permissions: Vec::new(),
            tool_path_permissions: Vec::new(),
            auto_approve_tool_requests: false,
            autostart_enabled: default_autostart_enabled(),
            downloads_directory: Some(downloads_directory),
            notifications: NotificationSettingsConfig::default(),
            browser: BrowserConfig::default(),
            desktop: DesktopConfig::default_for_platform(target_is_windows),
            automation: AutomationConfig::default(),
        }
    }
}

} // verus!
