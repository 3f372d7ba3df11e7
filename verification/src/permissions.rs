//! Tool permissions: wildcard patterns, the configured rules on tool names
//! and paths, the desktop approval mode, and the decision taken on each tool
//! call of the interactive and of the background agent.
//!
//! Wildcards are `*` (any run of characters) and `?` (any one character);
//! they are matched by translating the pattern into an anchored regular
//! expression for the `regex` crate.

use vstd::prelude::*;
use vstd::utf8::encode_utf8;
use crate::text::{
    chars_of, string_of, push_all, starts_with, trim_seq, chars_starts_with, str_eq,
};
use crate::config::{Config, ToolPermissionAction, ToolPathPermissionRule, DesktopApprovalMode};
use crate::desktop::{action_from_arguments, is_high_risk_action, action_risk, DesktopRiskLevel};

verus! {

/// A character with a meaning in a regular expression
/// (`regex_syntax::is_meta_character`).
pub open spec fn is_regex_meta(c: char) -> bool {
    c == '\\' || c == '.' || c == '+' || c == '*' || c == '?' || c == '(' || c == ')' || c == '|'
        || c == '[' || c == ']' || c == '{' || c == '}' || c == '^' || c == '$' || c == '#'
        || c == '&' || c == '-' || c == '~'
}

/// `regex::escape`: a backslash before every meta character.
pub open spec fn regex_escaped(s: Seq<char>) -> Seq<char>
    decreases s.len(),
{
    if s.len() == 0 {
        Seq::empty()
    } else {
        let c = s.last();
        regex_escaped(s.drop_last()) + if is_regex_meta(c) {
            seq!['\\', c]
        } else {
            seq![c]
        }
    }
}

/// Calls `regex::escape`, which puts a backslash before each regular
/// expression meta character (the set of `regex_syntax::is_meta_character`)
/// and keeps every other character.
#[verifier::external_body]
pub(crate) fn regex_escape(text: &str) -> (r: String)
    ensures
        r@ == regex_escaped(text@),
{
    regex::escape(text)
}

/// Whether `regex::Regex::new(pattern)` compiles and the compiled
/// expression matches somewhere in `value`.
pub uninterp spec fn regex_matches(pattern: Seq<char>, value: Seq<char>) -> bool;

/// Compiles `pattern` with `regex::Regex::new` and asks `Regex::is_match`
/// whether it matches `value`; a pattern that does not compile matches
/// nothing. The result is named `regex_matches`: it depends on the pattern
/// and the value alone.
#[verifier::external_body]
fn regex_is_match(pattern: &str, value: &str) -> (r: bool)
    ensures
        r == regex_matches(pattern@, value@),
{
    match regex::Regex::new(pattern) {
        Ok(re) => re.is_match(value),
        Err(_) => false,
    }
}

/// The regular expression for one wildcard character.
pub open spec fn wildcard_piece(c: char) -> Seq<char> {
    if c == '*' {
        ".*"@
    } else if c == '?' {
        "."@
    } else {
        regex_escaped(seq![c])
    }
}

pub open spec fn wildcard_body(p: Seq<char>) -> Seq<char>
    decreases p.len(),
{
    if p.len() == 0 {
        Seq::empty()
    } else {
        wildcard_body(p.drop_last()) + wildcard_piece(p.last())
    }
}

/// The anchored regular expression of a wildcard pattern.
pub open spec fn wildcard_regex(p: Seq<char>) -> Seq<char> {
    "^"@ + wildcard_body(p) + "$"@
}

/// Whether a value matches a wildcard pattern.
pub open spec fn wildcard_matches(pattern: Seq<char>, value: Seq<char>) -> bool {
    regex_matches(wildcard_regex(pattern), value)
}

/// The regular expression of a wildcard pattern (`*` and `?` translated,
/// everything else escaped, anchored at both ends).
pub fn wildcard_to_regex(pattern: &str) -> (r: String)
    ensures
        r@ == wildcard_regex(pattern@),
{
    let cs = chars_of(pattern);
    let mut out: Vec<char> = chars_of("^");
    let ghost start = out@;
    let mut i: usize = 0;
    while i < cs.len()
        invariant
            i <= cs.len(),
            cs@ == pattern@,
            start == "^"@,
            out@ =~= start + wildcard_body(cs@.take(i as int)),
        decreases cs.len() - i,
    {
        let ch = cs[i];
        let ghost before = out@;
        if ch == '*' {
            let piece = chars_of(".*");
            push_all(&mut out, piece.as_slice());
        } else if ch == '?' {
            let piece = chars_of(".");
            push_all(&mut out, piece.as_slice());
        } else {
            let one: [char; 1] = [ch];
            let single = string_of(one.as_slice());
            assert(single@ =~= seq![ch]);
            let escaped = regex_escape(single.as_str());
            let piece = chars_of(escaped.as_str());
            push_all(&mut out, piece.as_slice());
        }
        i += 1;
        proof {
            let t = cs@.take(i as int);
            assert(t.drop_last() =~= cs@.take((i - 1) as int));
            assert(t.last() == ch);
            assert(out@ =~= before + wildcard_piece(ch));
        }
    }
    assert(cs@.take(cs.len() as int) =~= cs@);
    let end = chars_of("$");
    push_all(&mut out, end.as_slice());
    string_of(out.as_slice())
}

/// Whether `value` matches the wildcard `pattern` as a whole.
pub fn wildcard_match(pattern: &str, value: &str) -> (r: bool)
    ensures
        r == wildcard_matches(pattern@, value@),
{
    let re = wildcard_to_regex(pattern);
    regex_is_match(re.as_str(), value)
}

/// MCP tools share one permission name.
pub open spec fn permission_name(tool_name: Seq<char>) -> Seq<char> {
    if starts_with(tool_name, "mcp__"@) {
        "mcp__*"@
    } else {
        tool_name
    }
}

/// The name under which a tool's permission is configured: every MCP tool
/// (`mcp__…`) is `mcp__*`.
pub fn normalize_tool_name_for_permission(tool_name: &str) -> (r: &str)
    ensures
        r@ == permission_name(tool_name@),
{
    let cs = chars_of(tool_name);
    let prefix = chars_of("mcp__");
    if chars_starts_with(cs.as_slice(), prefix.as_slice()) {
        "mcp__*"
    } else {
        tool_name
    }
}

/// The length in bytes of a text's UTF-8 encoding, as `str::len` gives it.
pub open spec fn byte_len(s: Seq<char>) -> nat {
    (encode_utf8(s).len() as usize) as nat
}

/// How well a rule pattern fits a tool: its length in bytes when it matches
/// the tool name as a wildcard or equals its permission name, else nothing.
pub open spec fn rule_score(pattern: Seq<char>, tool_name: Seq<char>) -> Option<nat> {
    if wildcard_matches(pattern, tool_name) || pattern == permission_name(tool_name) {
        Some(byte_len(pattern))
    } else {
        None
    }
}

/// Scores a tool rule against a tool name (see `rule_score`).
pub fn evaluate_tool_rule_match_score(tool_pattern: &str, tool_name: &str) -> (r: Option<usize>)
    ensures
        match rule_score(tool_pattern@, tool_name@) {
            Some(s) => r matches Some(v) && v as nat == s,
            None => r is None,
        },
{
    if wildcard_match(tool_pattern, tool_name) {
        return Some(tool_pattern.len());
    }
    if str_eq(tool_pattern, normalize_tool_name_for_permission(tool_name)) {
        return Some(tool_pattern.len());
    }
    None
}

pub open spec fn tool_rule_views(rules: Seq<(String, ToolPermissionAction)>) -> Seq<(Seq<char>, ToolPermissionAction)> {
    rules.map_values(|r: (String, ToolPermissionAction)| (r.0@, r.1))
}

/// The decision of the tool rules, and the score it was taken at: among the
/// rules that fit the tool, the one with the longest pattern; among equally
/// long ones, the last. With no fitting rule, `Ask`.
pub open spec fn best_tool_rule(rules: Seq<(Seq<char>, ToolPermissionAction)>, tool_name: Seq<char>) -> (ToolPermissionAction, nat)
    decreases rules.len(),
{
    if rules.len() == 0 {
        (ToolPermissionAction::Ask, 0)
    } else {
        let (decision, best) = best_tool_rule(rules.drop_last(), tool_name);
        match rule_score(rules.last().0, tool_name) {
            Some(s) => if s >= best {
                (rules.last().1, s)
            } else {
                (decision, best)
            },
            None => (decision, best),
        }
    }
}

pub open spec fn path_rule_views(rules: Seq<ToolPathPermissionRule>) -> Seq<(Seq<char>, Seq<char>, ToolPermissionAction)> {
    rules.map_values(|r: ToolPathPermissionRule| (r.tool_pattern@, r.path_pattern@, r.action))
}

/// The decision after the path rules: the last rule whose tool pattern fits
/// the tool and whose path pattern matches the path overrides `decision`.
pub open spec fn apply_path_rules(
    rules: Seq<(Seq<char>, Seq<char>, ToolPermissionAction)>,
    tool_name: Seq<char>,
    path: Seq<char>,
    decision: ToolPermissionAction,
) -> ToolPermissionAction
    decreases rules.len(),
{
    if rules.len() == 0 {
        decision
    } else {
        let r = rules.last();
        if rule_score(r.0, tool_name) is Some && wildcard_matches(r.1, path) {
            r.2
        } else {
            apply_path_rules(rules.drop_last(), tool_name, path, decision)
        }
    }
}

/// The configured permission of a tool call.
pub open spec fn configured_permission(config: Config, tool_name: Seq<char>, path: Option<Seq<char>>) -> ToolPermissionAction {
    let by_tool = best_tool_rule(tool_rule_views(config.tool_permissions@), tool_name).0;
    match path {
        Some(p) => apply_path_rules(path_rule_views(config.tool_path_permissions@), tool_name, p, by_tool),
        None => by_tool,
    }
}

pub open spec fn opt_view(o: Option<&str>) -> Option<Seq<char>> {
    match o {
        Some(s) => Some(s@),
        None => None,
    }
}

/// The permission the configuration gives a tool call: the best fitting
/// tool rule (see `best_tool_rule`), then, when the call names a path, the
/// last fitting path rule.
pub fn resolve_tool_permission_action(config: &Config, tool_name: &str, path_candidate: Option<&str>) -> (r: ToolPermissionAction)
    ensures
        r == configured_permission(*config, tool_name@, opt_view(path_candidate)),
{
    let ghost rules = tool_rule_views(config.tool_permissions@);
    let mut decision = ToolPermissionAction::Ask;
    let mut best_match: usize = 0;
    let mut i: usize = 0;
    while i < config.tool_permissions.len()
        invariant
            i <= config.tool_permissions.len(),
            rules == tool_rule_views(config.tool_permissions@),
            best_tool_rule(rules.take(i as int), tool_name@) == (decision, best_match as nat),
        decreases config.tool_permissions.len() - i,
    {
        let (pattern, action) = &config.tool_permissions[i];
        proof {
            assert(rules.take(i + 1).drop_last() =~= rules.take(i as int));
            assert(rules.take(i + 1).last() == (pattern@, *action));
        }
        match evaluate_tool_rule_match_score(pattern.as_str(), tool_name) {
            Some(score) => {
                if score >= best_match {
                    best_match = score;
                    decision = *action;
                }
            },
            None => {},
        }
        i += 1;
    }
    assert(rules.take(config.tool_permissions.len() as int) =~= rules);
    match path_candidate {
        None => decision,
        Some(path_value) => {
            let ghost prules = path_rule_views(config.tool_path_permissions@);
            let ghost by_tool = decision;
            let mut j: usize = 0;
            while j < config.tool_path_permissions.len()
                invariant
                    j <= config.tool_path_permissions.len(),
                    prules == path_rule_views(config.tool_path_permissions@),
                    decision == apply_path_rules(prules.take(j as int), tool_name@, path_value@, by_tool),
                decreases config.tool_path_permissions.len() - j,
            {
                let rule = &config.tool_path_permissions[j];
                proof {
                    assert(prules.take(j + 1).drop_last() =~= prules.take(j as int));
                    assert(prules.take(j + 1).last() == (rule.tool_pattern@, rule.path_pattern@, rule.action));
                }
                let fits = evaluate_tool_rule_match_score(rule.tool_pattern.as_str(), tool_name).is_some();
                if fits && wildcard_match(rule.path_pattern.as_str(), path_value) {
                    decision = rule.action;
                }
                j += 1;
            }
            assert(prules.take(config.tool_path_permissions.len() as int) =~= prules);
            decision
        },
    }
}

/// The name of the desktop tool.
pub open spec fn desktop_tool_name() -> Seq<char> {
    "desktop"@
}

/// The permission of a desktop call under the desktop approval mode, when
/// the rules left it at `Ask` and the call names an action.
pub open spec fn desktop_permission(
    mode: DesktopApprovalMode,
    tool_name: Seq<char>,
    raw_action: Option<Seq<char>>,
    fallback: ToolPermissionAction,
) -> ToolPermissionAction {
    if tool_name != desktop_tool_name() || fallback != ToolPermissionAction::Ask {
        fallback
    } else {
        match raw_action {
            None => ToolPermissionAction::Ask,
            Some(a) => if trim_seq(a).len() == 0 {
                ToolPermissionAction::Ask
            } else {
                match mode {
                    DesktopApprovalMode::AlwaysAllow => ToolPermissionAction::Allow,
                    DesktopApprovalMode::AlwaysAsk => ToolPermissionAction::Ask,
                    DesktopApprovalMode::HighRiskOnly => if action_risk(trim_seq(a)) == DesktopRiskLevel::High {
                        ToolPermissionAction::Ask
                    } else {
                        ToolPermissionAction::Allow
                    },
                }
            },
        }
    }
}

/// Refines the permission of a desktop call by the desktop approval mode.
/// `raw_action` is the `action` argument of the call when it is a string.
pub fn resolve_desktop_permission_action(
    config: &Config,
    tool_name: &str,
    raw_action: Option<&str>,
    fallback: ToolPermissionAction,
) -> (r: ToolPermissionAction)
    ensures
        r == desktop_permission(config.desktop.approval_mode, tool_name@, opt_view(raw_action), fallback),
{
    if !str_eq(tool_name, "desktop") {
        return fallback;
    }
    if fallback != ToolPermissionAction::Ask {
        return fallback;
    }
    let action = match action_from_arguments(raw_action) {
        Some(a) => a,
        None => {
            return ToolPermissionAction::Ask;
        },
    };
    match config.desktop.approval_mode {
        DesktopApprovalMode::AlwaysAllow => ToolPermissionAction::Allow,
        DesktopApprovalMode::AlwaysAsk => ToolPermissionAction::Ask,
        DesktopApprovalMode::HighRiskOnly => {
            if is_high_risk_action(action.as_str()) {
                ToolPermissionAction::Ask
            } else {
                ToolPermissionAction::Allow
            }
        },
    }
}

/// The answer to a tool call's request for approval.
#[derive(Debug, Clone, Copy, PartialEq, Eq, Structural)]
pub enum ToolApprovalDecision {
    AllowOnce,
    AllowAlways,
    Deny,
}

/// Tools that only read and may run inside a batch without asking.
pub open spec fn is_batch_safe_tool(n: Seq<char>) -> bool {
    n == "workspace_list_directory"@ || n == "workspace_read_file"@ || n == "workspace_parse_pdf_markdown"@
        || n == "workspace_search_glob"@ || n == "workspace_search_grep"@ || n == "workspace_search_code"@
        || n == "workspace_lsp_symbols"@ || n == "todo_read"@ || n == "todo_write"@ || n == "web_fetch"@
        || n == "web_search"@ || n == "image_probe"@ || n == "image_understand"@ || n == "sessions_list"@
        || n == "sessions_history"@ || n == "agents_list"@ || n == "skill_discover"@ || n == "skill_list"@
}

fn is_one_of(n: &str, names: &[&str]) -> (r: bool)
    ensures
        r == exists|i: int| 0 <= i < names.len() && n@ == names@[i]@,
{
    let mut i: usize = 0;
    while i < names.len()
        invariant
            i <= names.len(),
            forall|j: int| 0 <= j < i ==> n@ != names@[j]@,
        decreases names.len() - i,
    {
        if str_eq(n, names[i]) {
            return true;
        }
        i += 1;
    }
    false
}

/// Whether a tool may run inside a batch without the user's approval.
pub fn should_auto_allow_batch_tool(tool_name: &str) -> (r: bool)
    ensures
        r == is_batch_safe_tool(tool_name@),
{
    let names: [&str; 18] = [
        "workspace_list_directory",
        "workspace_read_file",
        "workspace_parse_pdf_markdown",
        "workspace_search_glob",
        "workspace_search_grep",
        "workspace_search_code",
        "workspace_lsp_symbols",
        "todo_read",
        "todo_write",
        "web_fetch",
        "web_search",
        "image_probe",
        "image_understand",
        "sessions_list",
        "sessions_history",
        "agents_list",
        "skill_discover",
        "skill_list",
    ];
    let found = is_one_of(tool_name, names.as_slice());
    proof {
        let n = tool_name@;
        if is_batch_safe_tool(n) {
            if n == "workspace_list_directory"@ { assert(n == names@[0]@); }
            if n == "workspace_read_file"@ { assert(n == names@[1]@); }
            if n == "workspace_parse_pdf_markdown"@ { assert(n == names@[2]@); }
            if n == "workspace_search_glob"@ { assert(n == names@[3]@); }
            if n == "workspace_search_grep"@ { assert(n == names@[4]@); }
            if n == "workspace_search_code"@ { assert(n == names@[5]@); }
            if n == "workspace_lsp_symbols"@ { assert(n == names@[6]@); }
            if n == "todo_read"@ { assert(n == names@[7]@); }
            if n == "todo_write"@ { assert(n == names@[8]@); }
            if n == "web_fetch"@ { assert(n == names@[9]@); }
            if n == "web_search"@ { assert(n == names@[10]@); }
            if n == "image_probe"@ { assert(n == names@[11]@); }
            if n == "image_understand"@ { assert(n == names@[12]@); }
            if n == "sessions_list"@ { assert(n == names@[13]@); }
            if n == "sessions_history"@ { assert(n == names@[14]@); }
            if n == "agents_list"@ { assert(n == names@[15]@); }
            if n == "skill_discover"@ { assert(n == names@[16]@); }
            if n == "skill_list"@ { assert(n == names@[17]@); }
        }
    }
    found
}

pub open spec fn opt_string_view(o: Option<String>) -> Option<Seq<char>> {
    match o {
        Some(s) => Some(s@),
        None => None,
    }
}

/// Whether every call of a batch targets a batch-safe tool: the batch has
/// calls, and each names (by its `tool` or else its `name` field, trimmed)
/// a tool that `is_batch_safe_tool` accepts.
pub open spec fn batch_targets_safe(calls: Option<Seq<Option<Seq<char>>>>) -> bool {
    match calls {
        None => false,
        Some(cs) => cs.len() > 0 && forall|i: int| 0 <= i < cs.len() ==> (#[trigger] cs[i] matches Some(n)
            && trim_seq(n).len() > 0 && is_batch_safe_tool(trim_seq(n))),
    }
}

/// Decides whether a `core_batch` call may run without asking. `calls` is
/// the `tool_calls` argument when it is an array; each entry is the call's
/// `tool` field, or else its `name` field, when that is a string.
pub fn batch_call_targets_are_safe(calls: Option<&Vec<Option<String>>>) -> (r: bool)
    ensures
        r == batch_targets_safe(match calls {
            Some(v) => Some(v@.map_values(|o: Option<String>| opt_string_view(o))),
            None => None,
        }),
{
    let v = match calls {
        Some(v) => v,
        None => {
            return false;
        },
    };
    let ghost cs = v@.map_values(|o: Option<String>| opt_string_view(o));
    if v.len() == 0 {
        return false;
    }
    let mut i: usize = 0;
    while i < v.len()
        invariant
            i <= v.len(),
            calls == Some(v),
            v.len() > 0,
            cs == v@.map_values(|o: Option<String>| opt_string_view(o)),
            forall|j: int| 0 <= j < i ==> (#[trigger] cs[j] matches Some(n) && trim_seq(n).len() > 0
                && is_batch_safe_tool(trim_seq(n))),
        decreases v.len() - i,
    {
        assert(cs[i as int] == opt_string_view(v@[i as int]));
        match &v[i] {
            None => {
                return false;
            },
            Some(name) => {
                let cs_name = chars_of(name.as_str());
                let t = crate::text::trim_chars(cs_name.as_slice());
                if t.len() == 0 {
                    return false;
                }
                let trimmed = string_of(t.as_slice());
                if !should_auto_allow_batch_tool(trimmed.as_str()) {
                    return false;
                }
            },
        }
        i += 1;
    }
    true
}

/// The first of the candidate path arguments that is present and not blank,
/// trimmed. The candidates are, in this order, the call's `path`,
/// `application_path`, `app_path`, `executable`, `cwd` and `directory`
/// arguments, then the same keys inside its `params` object, each when it
/// is a string.
pub open spec fn first_path(candidates: Seq<Option<Seq<char>>>) -> Option<Seq<char>>
    decreases candidates.len(),
{
    if candidates.len() == 0 {
        None
    } else {
        match candidates[0] {
            Some(c) => if trim_seq(c).len() > 0 {
                Some(trim_seq(c))
            } else {
                first_path(candidates.drop_first())
            },
            None => first_path(candidates.drop_first()),
        }
    }
}

/// The path a tool call works on (see `first_path`).
pub fn extract_tool_path_argument(candidates: &Vec<Option<String>>) -> (r: Option<String>)
    ensures
        opt_string_view(r) == first_path(candidates@.map_values(|o: Option<String>| opt_string_view(o))),
{
    let ghost cs = candidates@.map_values(|o: Option<String>| opt_string_view(o));
    let mut i: usize = 0;
    assert(cs.skip(0) =~= cs);
    while i < candidates.len()
        invariant
            i <= candidates.len(),
            cs == candidates@.map_values(|o: Option<String>| opt_string_view(o)),
            first_path(cs) == first_path(cs.skip(i as int)),
        decreases candidates.len() - i,
    {
        let ghost rest = cs.skip(i as int);
        assert(rest[0] == opt_string_view(candidates@[i as int]));
        assert(rest.drop_first() =~= cs.skip(i + 1));
        match crate::text::trim_present(&candidates[i]) {
            Some(t) => {
                return Some(t);
            },
            None => {},
        }
        i += 1;
    }
    assert(cs.skip(candidates.len() as int) =~= Seq::<Option<Seq<char>>>::empty());
    None
}

pub open spec fn names_contain(names: Seq<String>, n: Seq<char>) -> bool {
    exists|i: int| 0 <= i < names.len() && names[i]@ == n
}

fn contains_name(names: &Vec<String>, n: &str) -> (r: bool)
    ensures
        r == names_contain(names@, n@),
{
    let mut i: usize = 0;
    while i < names.len()
        invariant
            i <= names.len(),
            forall|j: int| 0 <= j < i ==> names@[j]@ != n@,
        decreases names.len() - i,
    {
        if str_eq(names[i].as_str(), n) {
            return true;
        }
        i += 1;
    }
    false
}

/// Whether a pattern of the list matches the text as a wildcard.
pub open spec fn any_pattern_matches(patterns: Seq<String>, text: Seq<char>) -> bool {
    exists|i: int| 0 <= i < patterns.len() && wildcard_matches(patterns[i]@, text)
}

fn any_wildcard_match(patterns: &Vec<String>, text: &str) -> (r: bool)
    ensures
        r == any_pattern_matches(patterns@, text@),
{
    let mut i: usize = 0;
    while i < patterns.len()
        invariant
            i <= patterns.len(),
            forall|j: int| 0 <= j < i ==> !wildcard_matches(#[trigger] patterns@[j]@, text@),
        decreases patterns.len() - i,
    {
        if wildcard_match(patterns[i].as_str(), text) {
            return true;
        }
        i += 1;
    }
    false
}

/// Whether a scheduled job's tool whitelist lets a call through: an empty
/// whitelist allows nothing; otherwise the tool's name must be listed or
/// match a listed pattern, or the call's path must match a listed pattern.
pub open spec fn whitelist_allows(whitelist: Seq<String>, tool_name: Seq<char>, path: Option<Seq<char>>) -> bool {
    &&& whitelist.len() > 0
    &&& {
        ||| names_contain(whitelist, tool_name)
        ||| any_pattern_matches(whitelist, tool_name)
        ||| (path matches Some(p) && p.len() > 0 && any_pattern_matches(whitelist, p))
    }
}

/// Checks a call against a scheduled job's tool whitelist (see
/// `whitelist_allows`). `path_candidate` is the path the call works on.
pub fn is_tool_allowed_by_scheduler_whitelist(whitelist: &Vec<String>, tool_name: &str, path_candidate: Option<&str>) -> (r: bool)
    ensures
        r == whitelist_allows(whitelist@, tool_name@, opt_view(path_candidate)),
{
    if whitelist.len() == 0 {
        return false;
    }
    if contains_name(whitelist, tool_name) {
        return true;
    }
    if any_wildcard_match(whitelist, tool_name) {
        return true;
    }
    match path_candidate {
        Some(p) => {
            if !p.is_empty() && any_wildcard_match(whitelist, p) {
                return true;
            }
        },
        None => {},
    }
    false
}

/// The permission of a call after the tool and path rules and the desktop
/// approval mode.
pub open spec fn effective_permission(config: Config, tool_name: Seq<char>, path: Option<Seq<char>>, raw_action: Option<Seq<char>>) -> ToolPermissionAction {
    desktop_permission(config.desktop.approval_mode, tool_name, raw_action, configured_permission(config, tool_name, path))
}

/// The decision on a tool call of a background run, where nobody can be
/// asked: a denied call is denied; under a whitelist, the whitelist alone
/// decides; an allowed call runs; a call that would need asking runs only
/// when requests are approved automatically or the tool was allowed for
/// the rest of the run.
pub open spec fn background_decision(
    config: Config,
    tool_name: Seq<char>,
    path: Option<Seq<char>>,
    raw_action: Option<Seq<char>>,
    always_allowed: Seq<String>,
    whitelist: Option<Seq<String>>,
) -> ToolApprovalDecision {
    let action = effective_permission(config, tool_name, path, raw_action);
    if action == ToolPermissionAction::Deny {
        ToolApprovalDecision::Deny
    } else {
        match whitelist {
            Some(w) => if whitelist_allows(w, tool_name, path) {
                ToolApprovalDecision::AllowAlways
            } else {
                ToolApprovalDecision::Deny
            },
            None => if action == ToolPermissionAction::Allow {
                ToolApprovalDecision::AllowAlways
            } else if config.auto_approve_tool_requests || names_contain(always_allowed, tool_name) {
                ToolApprovalDecision::AllowAlways
            } else {
                ToolApprovalDecision::Deny
            },
        }
    }
}

/// Decides a tool call of a background run (see `background_decision`).
/// `path_candidate` is the path the call works on and `raw_action` its
/// `action` argument when it is a string.
pub fn resolve_background_tool_execution_decision(
    config: &Config,
    tool_name: &str,
    path_candidate: Option<&str>,
    raw_action: Option<&str>,
    always_allowed_tools: &Vec<String>,
    whitelist: Option<&Vec<String>>,
) -> (r: ToolApprovalDecision)
    ensures
        r == background_decision(
            *config,
            tool_name@,
            opt_view(path_candidate),
            opt_view(raw_action),
            always_allowed_tools@,
            match whitelist {
                Some(w) => Some(w@),
                None => None,
            },
        ),
{
    let configured = resolve_tool_permission_action(config, tool_name, path_candidate);
    let action = resolve_desktop_permission_action(config, tool_name, raw_action, configured);
    if action == ToolPermissionAction::Deny {
        return ToolApprovalDecision::Deny;
    }
    match whitelist {
        Some(w) => {
            if !is_tool_allowed_by_scheduler_whitelist(w, tool_name, path_candidate) {
                return ToolApprovalDecision::Deny;
            }
            ToolApprovalDecision::AllowAlways
        },
        None => {
            match action {
                ToolPermissionAction::Allow => ToolApprovalDecision::AllowAlways,
                ToolPermissionAction::Ask => {
                    if config.auto_approve_tool_requests || contains_name(always_allowed_tools, tool_name) {
                        ToolApprovalDecision::AllowAlways
                    } else {
                        ToolApprovalDecision::Deny
                    }
                },
                ToolPermissionAction::Deny => ToolApprovalDecision::Deny,
            }
        },
    }
}

/// The decision on a tool call of an interactive run, or `None` when the
/// user must be asked: a denied call is denied; automatic approval or an
/// allowing rule allows it for the rest of the run; otherwise a tool
/// already allowed for the run, a batch of read-only tools (once) and PDF
/// parsing (once) run without asking.
pub open spec fn interactive_decision(
    config: Config,
    tool_name: Seq<char>,
    path: Option<Seq<char>>,
    raw_action: Option<Seq<char>>,
    always_allowed: Seq<String>,
    batch_safe: bool,
) -> Option<ToolApprovalDecision> {
    let action = effective_permission(config, tool_name, path, raw_action);
    if action == ToolPermissionAction::Deny {
        Some(ToolApprovalDecision::Deny)
    } else if config.auto_approve_tool_requests || action == ToolPermissionAction::Allow {
        Some(ToolApprovalDecision::AllowAlways)
    } else if names_contain(always_allowed, tool_name) {
        Some(ToolApprovalDecision::AllowAlways)
    } else if tool_name == "core_batch"@ && batch_safe {
        Some(ToolApprovalDecision::AllowOnce)
    } else if tool_name == "workspace_parse_pdf_markdown"@ {
        Some(ToolApprovalDecision::AllowOnce)
    } else {
        None
    }
}

/// Decides a tool call of an interactive run (see `interactive_decision`);
/// `None` means the user is asked and their answer decides.
/// `batch_targets_safe` is what `batch_call_targets_are_safe` says of the
/// call's arguments.
pub fn resolve_tool_execution_decision(
    config: &Config,
    tool_name: &str,
    path_candidate: Option<&str>,
    raw_action: Option<&str>,
    always_allowed_tools: &Vec<String>,
    batch_targets_safe: bool,
) -> (r: Option<ToolApprovalDecision>)
    ensures
        r == interactive_decision(
            *config,
            tool_name@,
            opt_view(path_candidate),
            opt_view(raw_action),
            always_allowed_tools@,
            batch_targets_safe,
        ),
{
    let configured = resolve_tool_permission_action(config, tool_name, path_candidate);
    let action = resolve_desktop_permission_action(config, tool_name, raw_action, configured);
    if config.auto_approve_tool_requests && action != ToolPermissionAction::Deny {
        return Some(ToolApprovalDecision::AllowAlways);
    }
    match action {
        ToolPermissionAction::Deny => Some(ToolApprovalDecision::Deny),
        ToolPermissionAction::Allow => Some(ToolApprovalDecision::AllowAlways),
        ToolPermissionAction::Ask => {
            if contains_name(always_allowed_tools, tool_name) {
                Some(ToolApprovalDecision::AllowAlways)
            } else if str_eq(tool_name, "core_batch") && batch_targets_safe {
                Some(ToolApprovalDecision::AllowOnce)
            } else if str_eq(tool_name, "workspace_parse_pdf_markdown") {
                Some(ToolApprovalDecision::AllowOnce)
            } else {
                None
            }
        },
    }
}

/// A denied call is denied in interactive and in background runs alike,
/// whatever automatic approval, earlier approvals or a whitelist say.
pub proof fn lemma_denied_call_is_denied(
    config: Config,
    tool_name: Seq<char>,
    path: Option<Seq<char>>,
    raw_action: Option<Seq<char>>,
    always_allowed: Seq<String>,
    whitelist: Option<Seq<String>>,
    batch_safe: bool,
)
    requires
        effective_permission(config, tool_name, path, raw_action) == ToolPermissionAction::Deny,
    ensures
        background_decision(config, tool_name, path, raw_action, always_allowed, whitelist) == ToolApprovalDecision::Deny,
        interactive_decision(config, tool_name, path, raw_action, always_allowed, batch_safe) == Some(ToolApprovalDecision::Deny),
{
}

/// Under a whitelist, a background call runs exactly when it is not denied
/// and the whitelist lets it through.
pub proof fn lemma_whitelist_decides_background(
    config: Config,
    tool_name: Seq<char>,
    path: Option<Seq<char>>,
    raw_action: Option<Seq<char>>,
    always_allowed: Seq<String>,
    whitelist: Seq<String>,
)
    ensures
        (background_decision(config, tool_name, path, raw_action, always_allowed, Some(whitelist)) == ToolApprovalDecision::AllowAlways)
            <==> (effective_permission(config, tool_name, path, raw_action) != ToolPermissionAction::Deny
                && whitelist_allows(whitelist, tool_name, path)),
        background_decision(config, tool_name, path, raw_action, always_allowed, Some(whitelist)) != ToolApprovalDecision::AllowOnce,
{
}

/// The desktop approval mode only refines a call that the rules left at
/// `Ask`, and only for the desktop tool.
pub proof fn lemma_desktop_mode_refines_ask_only(
    mode: DesktopApprovalMode,
    tool_name: Seq<char>,
    raw_action: Option<Seq<char>>,
    fallback: ToolPermissionAction,
)
    requires
        fallback != ToolPermissionAction::Ask || tool_name != desktop_tool_name(),
    ensures
        desktop_permission(mode, tool_name, raw_action, fallback) == fallback,
{
}

/// The most specific tool rule wins: the chosen score is at least the score
/// of every fitting rule; when no rule fits the decision is `Ask`; when one
/// does, the decision is that of a fitting rule with the chosen score, and
/// no later rule fits with that score.
pub proof fn lemma_longest_rule_wins(rules: Seq<(Seq<char>, ToolPermissionAction)>, tool_name: Seq<char>)
    ensures
        forall|i: int| 0 <= i < rules.len() && #[trigger] rule_score(rules[i].0, tool_name) is Some
            ==> rule_score(rules[i].0, tool_name)->0 <= best_tool_rule(rules, tool_name).1,
        (forall|i: int| 0 <= i < rules.len() ==> #[trigger] rule_score(rules[i].0, tool_name) is None)
            ==> best_tool_rule(rules, tool_name) == (ToolPermissionAction::Ask, 0nat),
        (exists|i: int| 0 <= i < rules.len() && #[trigger] rule_score(rules[i].0, tool_name) is Some)
            ==> exists|i: int| 0 <= i < rules.len()
                && #[trigger] rule_score(rules[i].0, tool_name) == Some(best_tool_rule(rules, tool_name).1)
                && rules[i].1 == best_tool_rule(rules, tool_name).0
                && forall|j: int| i < j < rules.len() ==> #[trigger] rule_score(rules[j].0, tool_name) != Some(best_tool_rule(rules, tool_name).1),
    decreases rules.len(),
{
    if rules.len() > 0 {
        let init = rules.drop_last();
        lemma_longest_rule_wins(init, tool_name);
        let (d, b) = best_tool_rule(init, tool_name);
        let last = rules.len() - 1;
        assert forall|i: int| 0 <= i < init.len() implies rules[i] == #[trigger] init[i] by {}
        assert(best_tool_rule(rules, tool_name).1 >= b);
        assert forall|i: int| 0 <= i < rules.len() && #[trigger] rule_score(rules[i].0, tool_name) is Some
            implies rule_score(rules[i].0, tool_name)->0 <= best_tool_rule(rules, tool_name).1 by {
            if i < init.len() {
                assert(rules[i] == init[i]);
                assert(rule_score(init[i].0, tool_name) is Some);
            } else {
                assert(rules[i] == rules.last());
            }
        }
        if exists|i: int| 0 <= i < rules.len() && #[trigger] rule_score(rules[i].0, tool_name) is Some {
            match rule_score(rules.last().0, tool_name) {
                Some(s) => {
                    if s >= b {
                        assert(rule_score(rules[last].0, tool_name) == Some(s));
                    } else {
                        let i = choose|i: int| 0 <= i < init.len()
                            && #[trigger] rule_score(init[i].0, tool_name) == Some(b)
                            && init[i].1 == d
                            && forall|j: int| i < j < init.len() ==> #[trigger] rule_score(init[j].0, tool_name) != Some(b);
                        assert(rule_score(rules[i].0, tool_name) == Some(b));
                        assert forall|j: int| i < j < rules.len() implies #[trigger] rule_score(rules[j].0, tool_name) != Some(b) by {
                            if j < init.len() {
                                assert(rules[j] == init[j]);
                            }
                        }
                    }
                },
                None => {
                    let k = choose|k: int| 0 <= k < rules.len() && #[trigger] rule_score(rules[k].0, tool_name) is Some;
                    assert(k < init.len());
                    assert(rule_score(init[k].0, tool_name) is Some);
                    let i = choose|i: int| 0 <= i < init.len()
                        && #[trigger] rule_score(init[i].0, tool_name) == Some(b)
                        && init[i].1 == d
                        && forall|j: int| i < j < init.len() ==> #[trigger] rule_score(init[j].0, tool_name) != Some(b);
                    assert(rule_score(rules[i].0, tool_name) == Some(b));
                    assert forall|j: int| i < j < rules.len() implies #[trigger] rule_score(rules[j].0, tool_name) != Some(b) by {
                        if j < init.len() {
                            assert(rules[j] == init[j]);
                        }
                    }
                },
            }
        } else {
            assert forall|i: int| 0 <= i < init.len() implies #[trigger] rule_score(init[i].0, tool_name) is None by {
                assert(rules[i] == init[i]);
                assert(rule_score(rules[i].0, tool_name) is None);
            }
            assert(rule_score(rules[last].0, tool_name) is None);
        }
    }
}

/// A path rule decides over the tool rules: when some path rule fits the
/// tool and matches the path, the permission is that of the last such rule.
pub proof fn lemma_last_path_rule_decides(
    rules: Seq<(Seq<char>, Seq<char>, ToolPermissionAction)>,
    tool_name: Seq<char>,
    path: Seq<char>,
    decision: ToolPermissionAction,
    i: int,
)
    requires
        0 <= i < rules.len(),
        rule_score(rules[i].0, tool_name) is Some,
        wildcard_matches(rules[i].1, path),
        forall|j: int| i < j < rules.len() ==> !(rule_score(#[trigger] rules[j].0, tool_name) is Some && wildcard_matches(rules[j].1, path)),
    ensures
        apply_path_rules(rules, tool_name, path, decision) == rules[i].2,
    decreases rules.len(),
{
    if i < rules.len() - 1 {
        let init = rules.drop_last();
        assert(rules[rules.len() - 1] == rules.last());
        assert forall|j: int| i < j < init.len() implies !(rule_score(#[trigger] init[j].0, tool_name) is Some && wildcard_matches(init[j].1, path)) by {
            assert(init[j] == rules[j]);
        }
        assert(init[i] == rules[i]);
        lemma_last_path_rule_decides(init, tool_name, path, decision, i);
    }
}

} // verus!
