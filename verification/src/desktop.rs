//! Desktop automation: the data model of windows and controls, the risk
//! classification of actions, per-conversation session state and the
//! decisions taken around each request. The platform calls themselves are
//! made by the caller.

use vstd::prelude::*;
use crate::text::{
    chars_of, chars_eq, lower_chars, trim_chars, lower_seq, trim_seq, owned, string_of,
    push_all, push_decimal, decimal_seq, str_eq,
};
use crate::config::DesktopConfig;

verus! {

/// How risky a desktop action is.
#[derive(Debug, Clone, Copy, PartialEq, Eq, Structural)]
pub enum DesktopRiskLevel {
    Low,
    High,
}

/// What is reported with every desktop response.
#[derive(Debug, Clone)]
pub struct DesktopResponseMeta {
    pub action: String,
    pub duration_ms: u64,
    pub risk_level: DesktopRiskLevel,
    pub conversation_id: String,
}

/// A screen rectangle.
#[derive(Debug, Clone, Copy)]
pub struct DesktopRect {
    pub left: i32,
    pub top: i32,
    pub right: i32,
    pub bottom: i32,
}

impl DesktopRect {
    /// `right - left`.
    pub fn width(&self) -> (r: i32)
        requires
            i32::MIN <= self.right - self.left <= i32::MAX,
        ensures
            r == self.right - self.left,
    {
        self.right - self.left
    }

    /// `bottom - top`.
    pub fn height(&self) -> (r: i32)
        requires
            i32::MIN <= self.bottom - self.top <= i32::MAX,
        ensures
            r == self.bottom - self.top,
    {
        self.bottom - self.top
    }
}

/// A top-level window.
#[derive(Debug, Clone)]
pub struct WindowSnapshot {
    pub id: String,
    pub title: String,
    pub class_name: String,
    pub process_id: u32,
    pub rect: DesktopRect,
    pub is_visible: bool,
    pub is_active: bool,
    pub hwnd: i64,
}

/// A control inside a window.
#[derive(Debug, Clone)]
pub struct ControlSnapshot {
    pub id: String,
    pub name: String,
    pub class_name: String,
    pub rect: DesktopRect,
    pub parent_window_id: String,
    pub hwnd: i64,
}

/// Actions that only read the desktop.
pub open spec fn is_read_only_action(n: Seq<char>) -> bool {
    n == "status"@ || n == "list_windows"@ || n == "select_window"@ || n == "get_window_info"@
        || n == "get_controls"@ || n == "get_ui_tree"@ || n == "capture_desktop_screenshot"@
        || n == "capture_window_screenshot"@ || n == "get_control_texts"@ || n == "wait"@
        || n == "word_get_doc_info"@ || n == "excel_get_workbook_info"@
        || n == "ppt_get_presentation_info"@
}

/// The risk of an action: low for the read-only actions (compared after
/// trimming and ASCII lowercasing), high for everything else.
pub open spec fn action_risk(action: Seq<char>) -> DesktopRiskLevel {
    if is_read_only_action(lower_seq(trim_seq(action))) {
        DesktopRiskLevel::Low
    } else {
        DesktopRiskLevel::High
    }
}

/// The read-only desktop actions are low risk, whatever surrounding blanks
/// and letter case they are written with: reading status, windows, controls,
/// the UI tree, screenshots, control texts, waiting and the document-info
/// actions of Word, Excel and PowerPoint never need approval.
pub proof fn lemma_read_only_actions_are_low(action: Seq<char>)
    ensures
        ({
            let n = lower_seq(trim_seq(action));
            (n == "status"@ || n == "list_windows"@ || n == "select_window"@
                || n == "get_window_info"@ || n == "get_controls"@ || n == "get_ui_tree"@
                || n == "capture_desktop_screenshot"@ || n == "capture_window_screenshot"@
                || n == "get_control_texts"@ || n == "wait"@ || n == "word_get_doc_info"@
                || n == "excel_get_workbook_info"@ || n == "ppt_get_presentation_info"@)
                ==> action_risk(action) == DesktopRiskLevel::Low
        }),
{
}

fn is_one_of(n: &[char], names: &[&str]) -> (r: bool)
    ensures
        r == exists|i: int| 0 <= i < names.len() && n@ == names@[i]@,
{
    let mut i: usize = 0;
    while i < names.len()
        invariant
            i <= names.len(),
            forall|j: int| 0 <= j < i ==> n@ != names@[j]@,
        decreases names.len() - i,
    {
        let candidate = chars_of(names[i]);
        if chars_eq(n, candidate.as_slice()) {
            return true;
        }
        i += 1;
    }
    false
}

/// Classifies a desktop action by risk.
pub fn classify_action_risk(action: &str) -> (r: DesktopRiskLevel)
    ensures
        r == action_risk(action@),
{
    let cs = chars_of(action);
    let t = trim_chars(cs.as_slice());
    let normalized = lower_chars(t.as_slice());
    let names: [&str; 13] = [
        "status",
        "list_windows",
        "select_window",
        "get_window_info",
        "get_controls",
        "get_ui_tree",
        "capture_desktop_screenshot",
        "capture_window_screenshot",
        "get_control_texts",
        "wait",
        "word_get_doc_info",
        "excel_get_workbook_info",
        "ppt_get_presentation_info",
    ];
    let low = is_one_of(normalized.as_slice(), names.as_slice());
    proof {
        let n = normalized@;
        if is_read_only_action(n) {
            if n == "status"@ { assert(n == names@[0]@); }
            if n == "list_windows"@ { assert(n == names@[1]@); }
            if n == "select_window"@ { assert(n == names@[2]@); }
            if n == "get_window_info"@ { assert(n == names@[3]@); }
            if n == "get_controls"@ { assert(n == names@[4]@); }
            if n == "get_ui_tree"@ { assert(n == names@[5]@); }
            if n == "capture_desktop_screenshot"@ { assert(n == names@[6]@); }
            if n == "capture_window_screenshot"@ { assert(n == names@[7]@); }
            if n == "get_control_texts"@ { assert(n == names@[8]@); }
            if n == "wait"@ { assert(n == names@[9]@); }
            if n == "word_get_doc_info"@ { assert(n == names@[10]@); }
            if n == "excel_get_workbook_info"@ { assert(n == names@[11]@); }
            if n == "ppt_get_presentation_info"@ { assert(n == names@[12]@); }
        }
    }
    if low {
        DesktopRiskLevel::Low
    } else {
        DesktopRiskLevel::High
    }
}

/// Whether an action is classified as high risk.
pub fn is_high_risk_action(action: &str) -> (r: bool)
    ensures
        r == (action_risk(action@) == DesktopRiskLevel::High),
{
    let level = classify_action_risk(action);
    match level {
        DesktopRiskLevel::High => true,
        DesktopRiskLevel::Low => false,
    }
}

/// The action named in a tool call's arguments, trimmed, unless it is absent
/// or blank. `raw_action` is the `action` field when it is a string.
pub fn action_from_arguments(raw_action: Option<&str>) -> (r: Option<String>)
    ensures
        match raw_action {
            Some(a) => if trim_seq(a@).len() == 0 {
                r is None
            } else {
                r matches Some(v) && v@ == trim_seq(a@)
            },
            None => r is None,
        },
{
    match raw_action {
        Some(a) => {
            let cs = chars_of(a);
            let t = trim_chars(cs.as_slice());
            if t.len() == 0 {
                None
            } else {
                Some(string_of(t.as_slice()))
            }
        },
        None => None,
    }
}

/// What one conversation remembers between desktop requests. Times are
/// milliseconds of a monotonic clock.
#[derive(Debug)]
pub struct DesktopSessionState {
    pub selected_window_hwnd: Option<i64>,
    pub window_cache: Vec<WindowSnapshot>,
    pub windows_cached_at: Option<u64>,
    pub controls_cache: Vec<ControlSnapshot>,
    pub controls_cached_at: Option<u64>,
}

impl DesktopSessionState {
    /// A session that has selected nothing and cached nothing.
    pub fn new() -> (r: Self)
        ensures
            r.is_fresh(),
    {
        DesktopSessionState {
            selected_window_hwnd: None,
            window_cache: Vec::new(),
            windows_cached_at: None,
            controls_cache: Vec::new(),
            controls_cached_at: None,
        }
    }

    /// Nothing selected and nothing cached.
    pub open spec fn is_fresh(self) -> bool {
        &&& self.selected_window_hwnd is None
        &&& self.window_cache@.len() == 0
        &&& self.windows_cached_at is None
        &&& self.controls_cache@.len() == 0
        &&& self.controls_cached_at is None
    }

    /// Records that a window was brought to the front: it becomes the
    /// selected window, the window list is replaced, and the control cache
    /// is dropped.
    pub fn select_window(&mut self, hwnd: i64, windows: Vec<WindowSnapshot>, now_ms: u64)
        ensures
            final(self).selected_window_hwnd == Some(hwnd),
            final(self).window_cache@ == windows@,
            final(self).windows_cached_at == Some(now_ms),
            final(self).controls_cache@.len() == 0,
            final(self).controls_cached_at is None,
    {
        self.selected_window_hwnd = Some(hwnd);
        self.window_cache = windows;
        self.windows_cached_at = Some(now_ms);
        self.controls_cache = Vec::new();
        self.controls_cached_at = None;
    }
}

/// Whether the window list must be fetched again.
pub fn window_cache_needs_refresh(session: &DesktopSessionState, force_refresh: bool) -> (r: bool)
    ensures
        r == (force_refresh || session.window_cache@.len() == 0),
{
    force_refresh || session.window_cache.len() == 0
}

/// The shortest time a control list is kept.
pub const MIN_CONTROL_CACHE_TTL_MS: u64 = 250;

/// Whether the cached control list can be used: not forced, taken no longer
/// than the configured time ago (at least 250 ms), and not empty.
pub open spec fn control_cache_usable(session: DesktopSessionState, ttl_ms: u64, now_ms: u64, force_refresh: bool) -> bool {
    let ttl = if ttl_ms < 250 { 250 } else { ttl_ms as int };
    &&& !force_refresh
    &&& session.controls_cached_at matches Some(at) && at <= now_ms && now_ms - at <= ttl
    &&& session.controls_cache@.len() > 0
}

/// Decides whether the controls of the selected window must be read again.
pub fn control_cache_needs_refresh(session: &DesktopSessionState, config: &DesktopConfig, now_ms: u64, force_refresh: bool) -> (r: bool)
    ensures
        r == !control_cache_usable(*session, config.control_cache_ttl_ms, now_ms, force_refresh),
{
    let ttl_ms = if config.control_cache_ttl_ms < MIN_CONTROL_CACHE_TTL_MS {
        MIN_CONTROL_CACHE_TTL_MS
    } else {
        config.control_cache_ttl_ms
    };
    let fresh_enough = match session.controls_cached_at {
        Some(at) => at <= now_ms && now_ms - at <= ttl_ms,
        None => false,
    };
    !(!force_refresh && fresh_enough && session.controls_cache.len() > 0)
}

/// How many controls are read at most: the configured number within
/// 10..=10000.
pub fn max_controls_to_read(config: &DesktopConfig) -> (r: usize)
    ensures
        r == (if config.max_controls < 10 { 10 } else if config.max_controls > 10_000 { 10_000 } else { config.max_controls as int }),
{
    if config.max_controls < 10 {
        10
    } else if config.max_controls > 10_000 {
        10_000
    } else {
        config.max_controls
    }
}

/// Replaces the control cache with a fresh reading.
pub fn store_controls(session: &mut DesktopSessionState, controls: Vec<ControlSnapshot>, now_ms: u64)
    ensures
        final(session).controls_cache@ == controls@,
        final(session).controls_cached_at == Some(now_ms),
        final(session).selected_window_hwnd == old(session).selected_window_hwnd,
        final(session).window_cache@ == old(session).window_cache@,
        final(session).windows_cached_at == old(session).windows_cached_at,
{
    session.controls_cache = controls;
    session.controls_cached_at = Some(now_ms);
}

/// The desktop sessions of all conversations, one per conversation id.
pub struct DesktopManager {
    pub sessions: Vec<(String, DesktopSessionState)>,
}

impl DesktopManager {
    pub open spec fn ids(self) -> Seq<Seq<char>> {
        self.sessions@.map_values(|e: (String, DesktopSessionState)| e.0@)
    }

    /// No conversation has two sessions.
    pub open spec fn wf(self) -> bool {
        forall|i: int, j: int| 0 <= i < j < self.sessions@.len() ==> #[trigger] self.sessions@[i].0@ != #[trigger] self.sessions@[j].0@
    }

    /// A manager without sessions.
    pub fn new() -> (r: Self)
        ensures
            r.wf(),
            r.sessions@.len() == 0,
    {
        DesktopManager { sessions: Vec::new() }
    }

    /// The position of the session of a conversation, creating a fresh one
    /// at the end when the conversation has none yet.
    pub fn session_mut(&mut self, conversation_id: &str) -> (r: usize)
        requires
            old(self).wf(),
        ensures
            final(self).wf(),
            r < final(self).sessions@.len(),
            final(self).sessions@[r as int].0@ == conversation_id@,
            (exists|i: int| 0 <= i < old(self).sessions@.len() && old(self).sessions@[i].0@ == conversation_id@)
                ==> final(self).sessions@ == old(self).sessions@,
            !(exists|i: int| 0 <= i < old(self).sessions@.len() && old(self).sessions@[i].0@ == conversation_id@)
                ==> final(self).sessions@.len() == old(self).sessions@.len() + 1
                    && final(self).sessions@.drop_last() == old(self).sessions@
                    && final(self).sessions@.last().1.is_fresh(),
    {
        let mut i: usize = 0;
        while i < self.sessions.len()
            invariant
                i <= self.sessions.len(),
                self.wf(),
                self.sessions@ == old(self).sessions@,
                forall|j: int| 0 <= j < i ==> self.sessions@[j].0@ != conversation_id@,
            decreases self.sessions.len() - i,
        {
            if str_eq(self.sessions[i].0.as_str(), conversation_id) {
                return i;
            }
            i += 1;
        }
        let ghost before = self.sessions@;
        self.sessions.push((owned(conversation_id), DesktopSessionState::new()));
        proof {
            assert(self.sessions@.drop_last() =~= before);
            assert forall|a: int, b: int| 0 <= a < b < self.sessions@.len() implies #[trigger] self.sessions@[a].0@ != #[trigger] self.sessions@[b].0@ by {
                if b == self.sessions@.len() - 1 {
                    assert(self.sessions@[a] == before[a]);
                } else {
                    assert(self.sessions@[a] == before[a]);
                    assert(self.sessions@[b] == before[b]);
                }
            }
        }
        self.sessions.len() - 1
    }
}

/// The shortest and longest time a desktop action may take.
pub const MIN_DESKTOP_TIMEOUT_MS: u64 = 500;
pub const MAX_DESKTOP_TIMEOUT_MS: u64 = 300_000;

/// What to do with a desktop request.
#[derive(Debug)]
pub enum DesktopPlan {
    /// The request named no action.
    MissingAction,
    /// Answer with this error without touching the desktop.
    Refuse { action: String, risk_level: DesktopRiskLevel, error: String },
    /// Run the action with this time limit.
    Run { action: String, risk_level: DesktopRiskLevel, timeout_ms: u64 },
}

pub open spec fn desktop_disabled_message() -> Seq<char> {
    "Desktop control is disabled. Set desktop.enabled=true in settings."@
}

pub open spec fn desktop_unsupported_message() -> Seq<char> {
    "Desktop tool is only supported on Windows"@
}

pub open spec fn clamp_timeout_ms(t: u64) -> int {
    if t < 500 { 500 } else if t > 300_000 { 300_000 } else { t as int }
}

/// Decides how a desktop request is handled: the action is trimmed and
/// must not be empty; a disabled desktop, or a platform other than
/// Windows, answers with an error; otherwise the action runs within the
/// configured time limit, kept within 500..=300000 ms.
pub fn plan_desktop_request(action: &str, config: &DesktopConfig, on_windows: bool) -> (r: DesktopPlan)
    ensures
        trim_seq(action@).len() == 0 <==> r is MissingAction,
        trim_seq(action@).len() > 0 && !config.enabled ==> (r matches DesktopPlan::Refuse { action: a, risk_level, error }
            && a@ == trim_seq(action@) && risk_level == action_risk(action@) && error@ == desktop_disabled_message()),
        trim_seq(action@).len() > 0 && config.enabled && !on_windows ==> (r matches DesktopPlan::Refuse { action: a, risk_level, error }
            && a@ == trim_seq(action@) && risk_level == action_risk(action@) && error@ == desktop_unsupported_message()),
        trim_seq(action@).len() > 0 && config.enabled && on_windows ==> (r matches DesktopPlan::Run { action: a, risk_level, timeout_ms }
            && a@ == trim_seq(action@) && risk_level == action_risk(action@) && timeout_ms == clamp_timeout_ms(config.operation_timeout_ms)),
{
    let cs = chars_of(action);
    let t = trim_chars(cs.as_slice());
    if t.len() == 0 {
        return DesktopPlan::MissingAction;
    }
    let trimmed = string_of(t.as_slice());
    let risk_level = classify_action_risk(action);
    if !config.enabled {
        return DesktopPlan::Refuse {
            action: trimmed,
            risk_level,
            error: owned("Desktop control is disabled. Set desktop.enabled=true in settings."),
        };
    }
    if !on_windows {
        return DesktopPlan::Refuse {
            action: trimmed,
            risk_level,
            error: owned("Desktop tool is only supported on Windows"),
        };
    }
    let timeout_ms = if config.operation_timeout_ms < MIN_DESKTOP_TIMEOUT_MS {
        MIN_DESKTOP_TIMEOUT_MS
    } else if config.operation_timeout_ms > MAX_DESKTOP_TIMEOUT_MS {
        MAX_DESKTOP_TIMEOUT_MS
    } else {
        config.operation_timeout_ms
    };
    DesktopPlan::Run { action: trimmed, risk_level, timeout_ms }
}

/// The error reported when a desktop action runs out of time.
pub open spec fn desktop_timeout_text(action: Seq<char>, timeout_ms: nat) -> Seq<char> {
    "Desktop action '"@ + action + "' timed out after "@ + decimal_seq(timeout_ms) + " ms"@
}

/// `Desktop action '<action>' timed out after <ms> ms`.
pub fn desktop_timeout_message(action: &str, timeout_ms: u64) -> (r: String)
    ensures
        r@ == desktop_timeout_text(action@, timeout_ms as nat),
{
    let mut out = chars_of("Desktop action '");
    let a = chars_of(action);
    push_all(&mut out, a.as_slice());
    let mid = chars_of("' timed out after ");
    push_all(&mut out, mid.as_slice());
    push_decimal(&mut out, timeout_ms);
    let tail = chars_of(" ms");
    push_all(&mut out, tail.as_slice());
    assert(out@ =~= desktop_timeout_text(action@, timeout_ms as nat));
    string_of(out.as_slice())
}


/// An action of the desktop tool: the Word, Excel and PowerPoint actions,
/// then the window and control actions.
#[derive(Debug, Clone, Copy, PartialEq, Eq, Structural)]
pub enum DesktopAction {
    WordGetDocInfo,
    WordInsertText,
    WordInsertTable,
    WordSaveAs,
    ExcelGetWorkbookInfo,
    ExcelSetCell,
    ExcelSetRange,
    ExcelSaveAs,
    PptGetPresentationInfo,
    PptAddSlide,
    PptSetText,
    PptSaveAs,
    Status,
    ListWindows,
    GetDesktopAppInfo,
    GetDesktopAppTargetInfo,
    SelectWindow,
    SelectApplicationWindow,
    GetWindowInfo,
    GetAppWindowInfo,
    GetControls,
    GetAppWindowControlsInfo,
    GetAppWindowControlsTargetInfo,
    GetUiTree,
    LaunchApplication,
    CloseApplication,
    ClickInput,
    ClickOnCoordinates,
    DragOnCoordinates,
    SetEditText,
    KeyboardInput,
    WheelMouseInput,
    GetControlTexts,
    Texts,
    CaptureDesktopScreenshot,
    CaptureWindowScreenshot,
    Wait,
    Summary,
}

/// The action a name stands for.
pub open spec fn desktop_action_named(n: Seq<char>) -> Option<DesktopAction> {
    if n == "word_get_doc_info"@ {
        Some(DesktopAction::WordGetDocInfo)
    } else if n == "word_insert_text"@ {
        Some(DesktopAction::WordInsertText)
    } else if n == "word_insert_table"@ {
        Some(DesktopAction::WordInsertTable)
    } else if n == "word_save_as"@ {
        Some(DesktopAction::WordSaveAs)
    } else if n == "excel_get_workbook_info"@ {
        Some(DesktopAction::ExcelGetWorkbookInfo)
    } else if n == "excel_set_cell"@ {
        Some(DesktopAction::ExcelSetCell)
    } else if n == "excel_set_range"@ {
        Some(DesktopAction::ExcelSetRange)
    } else if n == "excel_save_as"@ {
        Some(DesktopAction::ExcelSaveAs)
    } else if n == "ppt_get_presentation_info"@ {
        Some(DesktopAction::PptGetPresentationInfo)
    } else if n == "ppt_add_slide"@ {
        Some(DesktopAction::PptAddSlide)
    } else if n == "ppt_set_text"@ {
        Some(DesktopAction::PptSetText)
    } else if n == "ppt_save_as"@ {
        Some(DesktopAction::PptSaveAs)
    } else if n == "status"@ {
        Some(DesktopAction::Status)
    } else if n == "list_windows"@ {
        Some(DesktopAction::ListWindows)
    } else if n == "get_desktop_app_info"@ {
        Some(DesktopAction::GetDesktopAppInfo)
    } else if n == "get_desktop_app_target_info"@ {
        Some(DesktopAction::GetDesktopAppTargetInfo)
    } else if n == "select_window"@ {
        Some(DesktopAction::SelectWindow)
    } else if n == "select_application_window"@ {
        Some(DesktopAction::SelectApplicationWindow)
    } else if n == "get_window_info"@ {
        Some(DesktopAction::GetWindowInfo)
    } else if n == "get_app_window_info"@ {
        Some(DesktopAction::GetAppWindowInfo)
    } else if n == "get_controls"@ {
        Some(DesktopAction::GetControls)
    } else if n == "get_app_window_controls_info"@ {
        Some(DesktopAction::GetAppWindowControlsInfo)
    } else if n == "get_app_window_controls_target_info"@ {
        Some(DesktopAction::GetAppWindowControlsTargetInfo)
    } else if n == "get_ui_tree"@ {
        Some(DesktopAction::GetUiTree)
    } else if n == "launch_application"@ {
        Some(DesktopAction::LaunchApplication)
    } else if n == "close_application"@ {
        Some(DesktopAction::CloseApplication)
    } else if n == "click_input"@ {
        Some(DesktopAction::ClickInput)
    } else if n == "click_on_coordinates"@ {
        Some(DesktopAction::ClickOnCoordinates)
    } else if n == "drag_on_coordinates"@ {
        Some(DesktopAction::DragOnCoordinates)
    } else if n == "set_edit_text"@ {
        Some(DesktopAction::SetEditText)
    } else if n == "keyboard_input"@ {
        Some(DesktopAction::KeyboardInput)
    } else if n == "wheel_mouse_input"@ {
        Some(DesktopAction::WheelMouseInput)
    } else if n == "get_control_texts"@ {
        Some(DesktopAction::GetControlTexts)
    } else if n == "texts"@ {
        Some(DesktopAction::Texts)
    } else if n == "capture_desktop_screenshot"@ {
        Some(DesktopAction::CaptureDesktopScreenshot)
    } else if n == "capture_window_screenshot"@ {
        Some(DesktopAction::CaptureWindowScreenshot)
    } else if n == "wait"@ {
        Some(DesktopAction::Wait)
    } else if n == "summary"@ {
        Some(DesktopAction::Summary)
    } else {
        None
    }
}

/// Which desktop action a request runs: `params` must be an object, and the
/// action one of the known ones.
pub fn plan_action(action: &str, params_is_object: bool) -> (r: Result<DesktopAction, String>)
    ensures
        !params_is_object ==> (r matches Err(e) && e@ == "'params' must be an object"@),
        params_is_object ==> match desktop_action_named(action@) {
            Some(a) => r == Ok::<DesktopAction, String>(a),
            None => r matches Err(e) && e@ == "Unsupported desktop action: "@ + action@,
        },
{
    if !params_is_object {
        return Err(owned("'params' must be an object"));
    }
    let a = if str_eq(action, "word_get_doc_info") {
        Some(DesktopAction::WordGetDocInfo)
    } else if str_eq(action, "word_insert_text") {
        Some(DesktopAction::WordInsertText)
    } else if str_eq(action, "word_insert_table") {
        Some(DesktopAction::WordInsertTable)
    } else if str_eq(action, "word_save_as") {
        Some(DesktopAction::WordSaveAs)
    } else if str_eq(action, "excel_get_workbook_info") {
        Some(DesktopAction::ExcelGetWorkbookInfo)
    } else if str_eq(action, "excel_set_cell") {
        Some(DesktopAction::ExcelSetCell)
    } else if str_eq(action, "excel_set_range") {
        Some(DesktopAction::ExcelSetRange)
    } else if str_eq(action, "excel_save_as") {
        Some(DesktopAction::ExcelSaveAs)
    } else if str_eq(action, "ppt_get_presentation_info") {
        Some(DesktopAction::PptGetPresentationInfo)
    } else if str_eq(action, "ppt_add_slide") {
        Some(DesktopAction::PptAddSlide)
    } else if str_eq(action, "ppt_set_text") {
        Some(DesktopAction::PptSetText)
    } else if str_eq(action, "ppt_save_as") {
        Some(DesktopAction::PptSaveAs)
    } else if str_eq(action, "status") {
        Some(DesktopAction::Status)
    } else if str_eq(action, "list_windows") {
        Some(DesktopAction::ListWindows)
    } else if str_eq(action, "get_desktop_app_info") {
        Some(DesktopAction::GetDesktopAppInfo)
    } else if str_eq(action, "get_desktop_app_target_info") {
        Some(DesktopAction::GetDesktopAppTargetInfo)
    } else if str_eq(action, "select_window") {
        Some(DesktopAction::SelectWindow)
    } else if str_eq(action, "select_application_window") {
        Some(DesktopAction::SelectApplicationWindow)
    } else if str_eq(action, "get_window_info") {
        Some(DesktopAction::GetWindowInfo)
    } else if str_eq(action, "get_app_window_info") {
        Some(DesktopAction::GetAppWindowInfo)
    } else if str_eq(action, "get_controls") {
        Some(DesktopAction::GetControls)
    } else if str_eq(action, "get_app_window_controls_info") {
        Some(DesktopAction::GetAppWindowControlsInfo)
    } else if str_eq(action, "get_app_window_controls_target_info") {
        Some(DesktopAction::GetAppWindowControlsTargetInfo)
    } else if str_eq(action, "get_ui_tree") {
        Some(DesktopAction::GetUiTree)
    } else if str_eq(action, "launch_application") {
        Some(DesktopAction::LaunchApplication)
    } else if str_eq(action, "close_application") {
        Some(DesktopAction::CloseApplication)
    } else if str_eq(action, "click_input") {
        Some(DesktopAction::ClickInput)
    } else if str_eq(action, "click_on_coordinates") {
        Some(DesktopAction::ClickOnCoordinates)
    } else if str_eq(action, "drag_on_coordinates") {
        Some(DesktopAction::DragOnCoordinates)
    } else if str_eq(action, "set_edit_text") {
        Some(DesktopAction::SetEditText)
    } else if str_eq(action, "keyboard_input") {
        Some(DesktopAction::KeyboardInput)
    } else if str_eq(action, "wheel_mouse_input") {
        Some(DesktopAction::WheelMouseInput)
    } else if str_eq(action, "get_control_texts") {
        Some(DesktopAction::GetControlTexts)
    } else if str_eq(action, "texts") {
        Some(DesktopAction::Texts)
    } else if str_eq(action, "capture_desktop_screenshot") {
        Some(DesktopAction::CaptureDesktopScreenshot)
    } else if str_eq(action, "capture_window_screenshot") {
        Some(DesktopAction::CaptureWindowScreenshot)
    } else if str_eq(action, "wait") {
        Some(DesktopAction::Wait)
    } else if str_eq(action, "summary") {
        Some(DesktopAction::Summary)
    } else {
        None
    };
    match a {
        Some(x) => Ok(x),
        None => {
            let mut out = chars_of("Unsupported desktop action: ");
            push_all(&mut out, chars_of(action).as_slice());
            Err(string_of(out.as_slice()))
        },
    }
}
} // verus!
