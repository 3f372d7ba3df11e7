//! The decisions inside desktop actions: which window an action targets,
//! which window an application label selects, which windows are listed,
//! what a launch request starts, and how controls are named in errors.
//! The platform calls stay with the caller.

use vstd::prelude::*;
use crate::text::{
    chars_of, string_of, owned, push_all, trim_seq, trim_chars, lower_seq, lower_chars, chars_eq,
    starts_with, ends_with, contains_seq, chars_starts_with, chars_ends_with, chars_contains,
    slice_chars, is_ascii_digit, join_seq, join_chars, views, str_eq, opt_view, string_views,
};
use crate::desktop::{WindowSnapshot, ControlSnapshot};
use crate::order::{text_le, lemma_text_le_total, lemma_text_le_trans, chars_le, is_stable_number_order, stable_number_order};

verus! {

/// The number written by decimal digits.
pub open spec fn digits_value(d: Seq<char>) -> int
    decreases d.len(),
{
    if d.len() == 0 {
        0
    } else {
        digits_value(d.drop_last()) * 10 + ((d.last() as int) - 48)
    }
}

pub open spec fn all_digits(d: Seq<char>) -> bool {
    forall|i: int| 0 <= i < d.len() ==> is_ascii_digit(#[trigger] d[i])
}

/// The integer a text writes: an optional `+` or `-`, then one or more
/// ASCII digits (what `str::parse` reads for integers).
pub open spec fn integer_text_value(s: Seq<char>) -> Option<int> {
    let neg = s.len() > 0 && s[0] == '-';
    let body = if s.len() > 0 && (s[0] == '-' || s[0] == '+') { s.drop_first() } else { s };
    if body.len() == 0 || !all_digits(body) {
        None
    } else if neg {
        Some(-digits_value(body))
    } else {
        Some(digits_value(body))
    }
}

/// `str::parse::<i64>`: the integer, when it fits.
pub open spec fn parsed_i64(s: Seq<char>) -> Option<int> {
    match integer_text_value(s) {
        Some(v) => if i64::MIN <= v <= i64::MAX { Some(v) } else { None },
        None => None,
    }
}

/// `str::parse::<usize>`: the integer, when it has no `-` and fits.
pub open spec fn parsed_usize(s: Seq<char>) -> Option<int> {
    if s.len() > 0 && s[0] == '-' {
        None
    } else {
        match integer_text_value(s) {
            Some(v) => if 0 <= v <= usize::MAX { Some(v) } else { None },
            None => None,
        }
    }
}

proof fn lemma_digits_value_grows(d: Seq<char>, i: int)
    requires
        all_digits(d),
        0 <= i <= d.len(),
    ensures
        0 <= digits_value(d.take(i)) <= digits_value(d),
    decreases d.len() - i,
{
    if i < d.len() {
        lemma_digits_value_grows(d, i + 1);
        let t = d.take(i + 1);
        assert(t.drop_last() =~= d.take(i));
        assert(is_ascii_digit(d[i]));
        lemma_digits_value_nonneg(d.take(i));
    } else {
        assert(d.take(i) =~= d);
        lemma_digits_value_nonneg(d);
    }
}

proof fn lemma_digits_value_nonneg(d: Seq<char>)
    requires
        all_digits(d),
    ensures
        digits_value(d) >= 0,
    decreases d.len(),
{
    if d.len() > 0 {
        let t = d.drop_last();
        assert(all_digits(t)) by {
            assert forall|i: int| 0 <= i < t.len() implies is_ascii_digit(#[trigger] t[i]) by {
                assert(t[i] == d[i]);
            }
        }
        lemma_digits_value_nonneg(t);
        assert(is_ascii_digit(d[d.len() - 1]));
    }
}

/// The value of decimal digits, or `None` when it exceeds `limit`.
fn digits_up_to(body: &[char], limit: u128) -> (r: Option<u128>)
    requires
        limit <= 0x1_0000_0000_0000_0000,
    ensures
        match r {
            Some(v) => all_digits(body@) && v == digits_value(body@) && v <= limit,
            None => !all_digits(body@) || digits_value(body@) > limit,
        },
{
    let mut acc: u128 = 0;
    let mut i: usize = 0;
    while i < body.len()
        invariant
            i <= body.len(),
            limit <= 0x1_0000_0000_0000_0000,
            all_digits(body@.take(i as int)),
            acc == digits_value(body@.take(i as int)),
            acc <= limit,
        decreases body.len() - i,
    {
        let c = body[i];
        if !('0' <= c && c <= '9') {
            return None;
        }
        proof {
            let t = body@.take(i + 1);
            assert(t.drop_last() =~= body@.take(i as int));
            assert(all_digits(t)) by {
                assert forall|k: int| 0 <= k < t.len() implies is_ascii_digit(#[trigger] t[k]) by {
                    if k < i {
                        assert(t[k] == body@.take(i as int)[k]);
                    }
                }
            }
        }
        let d = (c as u32 - 48) as u128;
        acc = acc * 10 + d;
        i += 1;
        if acc > limit {
            proof {
                assert(all_digits(body@.take(i as int)));
                if all_digits(body@) {
                    lemma_digits_value_grows(body@, i as int);
                }
            }
            return None;
        }
    }
    assert(body@.take(body.len() as int) =~= body@);
    Some(acc)
}

/// `str::parse::<i64>` over characters.
pub fn parse_i64(s: &[char]) -> (r: Option<i64>)
    ensures
        match parsed_i64(s@) {
            Some(v) => r == Some(v as i64),
            None => r is None,
        },
{
    let neg = s.len() > 0 && s[0] == '-';
    let signed = s.len() > 0 && (s[0] == '-' || s[0] == '+');
    let body = if signed { slice_chars(s, 1, s.len()) } else { slice_chars(s, 0, s.len()) };
    assert(body@ =~= if signed { s@.drop_first() } else { s@ });
    if body.len() == 0 {
        return None;
    }
    let limit: u128 = if neg { 0x8000_0000_0000_0000 } else { 0x7FFF_FFFF_FFFF_FFFF };
    match digits_up_to(body.as_slice(), limit) {
        None => None,
        Some(v) => {
            if neg {
                if v == 0x8000_0000_0000_0000 {
                    Some(i64::MIN)
                } else {
                    Some(0 - (v as i64))
                }
            } else {
                Some(v as i64)
            }
        },
    }
}

/// `str::parse::<usize>` over characters.
pub fn parse_usize(s: &[char]) -> (r: Option<usize>)
    ensures
        match parsed_usize(s@) {
            Some(v) => r == Some(v as usize),
            None => r is None,
        },
{
    if s.len() > 0 && s[0] == '-' {
        return None;
    }
    let signed = s.len() > 0 && s[0] == '+';
    let body = if signed { slice_chars(s, 1, s.len()) } else { slice_chars(s, 0, s.len()) };
    assert(body@ =~= if signed { s@.drop_first() } else { s@ });
    if body.len() == 0 {
        return None;
    }
    match digits_up_to(body.as_slice(), usize::MAX as u128) {
        None => None,
        Some(v) => Some(v as usize),
    }
}

/// A window id as the model writes it: a window handle, optionally
/// prefixed by `hwnd:`, with whitespace around.
pub open spec fn hwnd_id_value(value: Seq<char>) -> Option<int> {
    let t = trim_seq(value);
    if t.len() == 0 {
        None
    } else {
        parsed_i64(if starts_with(t, "hwnd:"@) { trim_seq(t.skip(5)) } else { t })
    }
}

/// Reads a window id (see `hwnd_id_value`).
pub fn parse_hwnd_id(value: &str) -> (r: Option<i64>)
    ensures
        match hwnd_id_value(value@) {
            Some(v) => r == Some(v as i64),
            None => r is None,
        },
{
    let cs = chars_of(value);
    let t = trim_chars(cs.as_slice());
    if t.len() == 0 {
        return None;
    }
    let prefix = chars_of("hwnd:");
    proof {
        reveal_strlit("hwnd:");
    }
    if chars_starts_with(t.as_slice(), prefix.as_slice()) {
        let rest = slice_chars(t.as_slice(), 5, t.len());
        assert(rest@ =~= t@.skip(5));
        let raw = trim_chars(rest.as_slice());
        parse_i64(raw.as_slice())
    } else {
        parse_i64(t.as_slice())
    }
}

/// The window an action works on.
#[derive(Debug, Clone)]
pub enum WindowTarget {
    /// This window handle.
    Hwnd(i64),
    /// The first window whose lowercased title contains this text,
    /// lowercased.
    TitleContains(String),
}

pub open spec fn no_selected_window_message() -> Seq<char> {
    "No selected window. Call action=select_window first"@
}

/// Which window an action targets: the given window id (an invalid one is
/// an error), else the given handle, else a window found by title, else
/// the selected window. `raw_id` is the `window_id` (or else `id`)
/// argument when it is a string.
pub fn resolve_window_target(
    raw_id: Option<&str>,
    hwnd: Option<i64>,
    title_contains: Option<&str>,
    selected_hwnd: Option<i64>,
) -> (r: Result<WindowTarget, String>)
    ensures
        match raw_id {
            Some(id) => match hwnd_id_value(id@) {
                Some(v) => r matches Ok(WindowTarget::Hwnd(h)) && h == v,
                None => r matches Err(e) && e@ == "Invalid window id: "@ + id@,
            },
            None => match hwnd {
                Some(h) => r matches Ok(WindowTarget::Hwnd(x)) && x == h,
                None => match title_contains {
                    Some(t) if trim_seq(t@).len() > 0 => r matches Ok(WindowTarget::TitleContains(n)) && n@ == trim_seq(t@),
                    _ => match selected_hwnd {
                        Some(s) => r matches Ok(WindowTarget::Hwnd(x)) && x == s,
                        None => r matches Err(e) && e@ == no_selected_window_message(),
                    },
                },
            },
        },
{
    if let Some(id) = raw_id {
        match parse_hwnd_id(id) {
            Some(v) => {
                return Ok(WindowTarget::Hwnd(v));
            },
            None => {
                let mut msg = chars_of("Invalid window id: ");
                let ic = chars_of(id);
                push_all(&mut msg, ic.as_slice());
                return Err(string_of(msg.as_slice()));
            },
        }
    }
    if let Some(h) = hwnd {
        return Ok(WindowTarget::Hwnd(h));
    }
    if let Some(t) = title_contains {
        let tc = chars_of(t);
        let trimmed = trim_chars(tc.as_slice());
        if trimmed.len() > 0 {
            return Ok(WindowTarget::TitleContains(string_of(trimmed.as_slice())));
        }
    }
    match selected_hwnd {
        Some(s) => Ok(WindowTarget::Hwnd(s)),
        None => Err(owned("No selected window. Call action=select_window first")),
    }
}

/// Whether a window is listed when empty windows are removed: it has a
/// title or a class name that is not blank.
pub open spec fn window_has_name(w: WindowSnapshot) -> bool {
    trim_seq(w.title@).len() > 0 || trim_seq(w.class_name@).len() > 0
}

/// The windows an application list shows, in order: all of them, or those
/// with a name when `remove_empty` is set. Their labels are their
/// positions in this list, from 1.
pub open spec fn listed_windows(windows: Seq<WindowSnapshot>, remove_empty: bool) -> Seq<int>
    decreases windows.len(),
{
    if windows.len() == 0 {
        Seq::empty()
    } else {
        let rest = listed_windows(windows.drop_last(), remove_empty);
        if !remove_empty || window_has_name(windows.last()) {
            rest.push(windows.len() - 1)
        } else {
            rest
        }
    }
}

/// The positions (in the window list) of the windows an application list
/// shows (see `listed_windows`).
pub fn list_application_windows(windows: &Vec<WindowSnapshot>, remove_empty: bool) -> (r: Vec<usize>)
    ensures
        r@.map_values(|i: usize| i as int) == listed_windows(windows@, remove_empty),
{
    let mut out: Vec<usize> = Vec::new();
    let mut i: usize = 0;
    while i < windows.len()
        invariant
            i <= windows.len(),
            out@.map_values(|k: usize| k as int) =~= listed_windows(windows@.take(i as int), remove_empty),
        decreases windows.len() - i,
    {
        proof {
            assert(windows@.take(i + 1).drop_last() =~= windows@.take(i as int));
            assert(windows@.take(i + 1).last() == windows@[i as int]);
        }
        let w = &windows[i];
        let tc = chars_of(w.title.as_str());
        let tt = trim_chars(tc.as_slice());
        let cc = chars_of(w.class_name.as_str());
        let ct = trim_chars(cc.as_slice());
        if !remove_empty || tt.len() > 0 || ct.len() > 0 {
            let ghost before = out@;
            out.push(i);
            assert(out@.map_values(|k: usize| k as int) =~= before.map_values(|k: usize| k as int).push(i as int));
        }
        i += 1;
    }
    assert(windows@.take(windows.len() as int) =~= windows@);
    out
}

/// Which window `select_application_window` brings forward, and the id it
/// reports: an explicit handle; else a `window_id` (a window id, or an
/// error); else an `id`, which is a label of the window list (1 to its
/// length) when it is a number in that range, else a window id, else an
/// error; one of them is required.
pub open spec fn application_window_choice(
    explicit_hwnd: Option<i64>,
    raw_window_id: Option<Seq<char>>,
    raw_id: Option<Seq<char>>,
    hwnds: Seq<i64>,
) -> Result<(Seq<char>, int), Seq<char>> {
    match explicit_hwnd {
        Some(h) => Ok((crate::text::signed_decimal_seq(h as int), h as int)),
        None => match raw_window_id {
            Some(w) => match hwnd_id_value(w) {
                Some(h) => Ok((w, h)),
                None => Err("Invalid window_id: "@ + w),
            },
            None => match raw_id {
                Some(id) => match parsed_usize(id) {
                    Some(label) => if 1 <= label <= hwnds.len() {
                        Ok((id, hwnds[label - 1] as int))
                    } else {
                        match hwnd_id_value(id) {
                            Some(h) => Ok((id, h)),
                            None => Err("Window id '"@ + id + "' not found. Available labels: 1.."@
                                + crate::text::decimal_seq(hwnds.len())),
                        }
                    },
                    None => match hwnd_id_value(id) {
                        Some(h) => Ok((id, h)),
                        None => Err("Invalid application window id: "@ + id),
                    },
                },
                None => Err("'id', 'window_id', or 'hwnd' is required"@),
            },
        },
    }
}

/// Chooses the window of `select_application_window` (see
/// `application_window_choice`). `hwnds` are the handles of the window
/// list, in order.
pub fn select_application_window_target(
    explicit_hwnd: Option<i64>,
    raw_window_id: Option<String>,
    raw_id: Option<String>,
    hwnds: &Vec<i64>,
) -> (r: Result<(String, i64), String>)
    ensures
        match application_window_choice(explicit_hwnd, opt_view(raw_window_id), opt_view(raw_id), hwnds@) {
            Ok((id, h)) => r matches Ok((rid, rh)) && rid@ == id && rh == h,
            Err(e) => r matches Err(m) && m@ == e,
        },
{
    if let Some(h) = explicit_hwnd {
        return Ok((crate::text::signed_decimal_text(h), h));
    }
    if let Some(w) = raw_window_id {
        match parse_hwnd_id(w.as_str()) {
            Some(h) => {
                return Ok((w, h));
            },
            None => {
                let mut msg = chars_of("Invalid window_id: ");
                let wc = chars_of(w.as_str());
                push_all(&mut msg, wc.as_slice());
                return Err(string_of(msg.as_slice()));
            },
        }
    }
    let id = match raw_id {
        Some(id) => id,
        None => {
            return Err(owned("'id', 'window_id', or 'hwnd' is required"));
        },
    };
    let ic = chars_of(id.as_str());
    match parse_usize(ic.as_slice()) {
        Some(label) => {
            if 1 <= label && label <= hwnds.len() {
                let h = hwnds[label - 1];
                return Ok((id, h));
            }
            match parse_hwnd_id(id.as_str()) {
                Some(h) => Ok((id, h)),
                None => {
                    let mut msg = chars_of("Window id '");
                    push_all(&mut msg, ic.as_slice());
                    let mid = chars_of("' not found. Available labels: 1..");
                    push_all(&mut msg, mid.as_slice());
                    crate::text::push_decimal(&mut msg, hwnds.len() as u64);
                    Err(string_of(msg.as_slice()))
                },
            }
        },
        None => match parse_hwnd_id(id.as_str()) {
            Some(h) => Ok((id, h)),
            None => {
                let mut msg = chars_of("Invalid application window id: ");
                push_all(&mut msg, ic.as_slice());
                Err(string_of(msg.as_slice()))
            },
        },
    }
}

/// Whether a character separates the parts of a path.
pub open spec fn is_path_separator(c: char) -> bool {
    c == '\\' || c == '/'
}

/// The part of a text after its last path separator (all of it when it has
/// none).
pub open spec fn last_path_part(s: Seq<char>) -> Seq<char>
    decreases s.len(),
{
    if s.len() == 0 {
        Seq::empty()
    } else if is_path_separator(s.last()) {
        Seq::empty()
    } else {
        last_path_part(s.drop_last()).push(s.last())
    }
}

fn last_path_part_exec(s: &[char]) -> (r: Vec<char>)
    ensures
        r@ == last_path_part(s@),
{
    let mut k: usize = s.len();
    while k > 0 && s[k - 1] != '\\' && s[k - 1] != '/'
        invariant
            k <= s.len(),
            forall|j: int| k <= j < s.len() ==> !is_path_separator(s@[j]),
        decreases k,
    {
        k -= 1;
    }
    proof {
        lemma_last_path_part(s@, k as int);
    }
    slice_chars(s, k, s.len())
}

proof fn lemma_last_path_part(s: Seq<char>, k: int)
    requires
        0 <= k <= s.len(),
        forall|j: int| k <= j < s.len() ==> !is_path_separator(s[j]),
        k == 0 || is_path_separator(s[k - 1]),
    ensures
        last_path_part(s) == s.subrange(k, s.len() as int),
    decreases s.len(),
{
    if s.len() > 0 {
        if s.len() == k {
            assert(s.subrange(k, s.len() as int) =~= Seq::<char>::empty());
        } else {
            let t = s.drop_last();
            assert forall|j: int| k <= j < t.len() implies !is_path_separator(t[j]) by {
                assert(t[j] == s[j]);
            }
            if k > 0 {
                assert(t[k - 1] == s[k - 1]);
            }
            lemma_last_path_part(t, k);
            assert(s.subrange(k, s.len() as int) =~= t.subrange(k, t.len() as int).push(s.last()));
        }
    } else {
        assert(s.subrange(k, s.len() as int) =~= Seq::<char>::empty());
    }
}

/// Programs that are web browsers.
pub open spec fn is_browser_program(n: Seq<char>) -> bool {
    n == "chrome"@ || n == "msedge"@ || n == "firefox"@ || n == "brave"@ || n == "opera"@ || n == "iexplore"@
        || n == "microsoftedge"@ || n == "microsoft-edge"@ || n == "edge"@ || n == "browser"@
}

/// Texts that, inside a command, start a browser.
pub open spec fn mentions_browser(n: Seq<char>) -> bool {
    contains_seq(n, "chrome.exe"@) || contains_seq(n, "msedge.exe"@) || contains_seq(n, "firefox.exe"@)
        || contains_seq(n, "brave.exe"@) || contains_seq(n, "opera.exe"@) || contains_seq(n, "iexplore.exe"@)
        || contains_seq(n, "microsoft-edge:"@) || contains_seq(n, "start chrome"@) || contains_seq(n, "start msedge"@)
        || contains_seq(n, "start firefox"@) || contains_seq(n, "start brave"@) || contains_seq(n, "start opera"@)
}

/// Removes the quotes around a text.
pub open spec fn unquoted(s: Seq<char>) -> Seq<char> {
    crate::text::trim_char_seq(crate::text::trim_char_seq(s, '"'), '\'')
}

/// Whether a launch target names a web browser: trimmed, unquoted and
/// lowercased, its file name (without `.exe`) is a browser's, or it holds
/// a browser executable or a `start <browser>` command.
pub open spec fn is_browser_target(raw: Seq<char>) -> bool {
    let n = lower_seq(unquoted(trim_seq(raw)));
    if n.len() == 0 {
        false
    } else {
        let leaf = unquoted(last_path_part(n));
        let stem = if ends_with(leaf, ".exe"@) { leaf.subrange(0, leaf.len() - 4) } else { leaf };
        is_browser_program(stem) || mentions_browser(n)
    }
}

fn is_lit(n: &Vec<char>, lit: &str) -> (r: bool)
    ensures
        r == (n@ == lit@),
{
    let c = chars_of(lit);
    chars_eq(n.as_slice(), c.as_slice())
}

fn has_lit(n: &Vec<char>, lit: &str) -> (r: bool)
    ensures
        r == contains_seq(n@, lit@),
{
    let c = chars_of(lit);
    chars_contains(n.as_slice(), c.as_slice())
}

/// Tells whether a launch target names a web browser (see
/// `is_browser_target`).
pub fn looks_like_browser_target(raw: &str) -> (r: bool)
    ensures
        r == is_browser_target(raw@),
{
    let cs = chars_of(raw);
    let t = trim_chars(cs.as_slice());
    let q1 = crate::text::trim_char_chars(t.as_slice(), '"');
    let q2 = crate::text::trim_char_chars(q1.as_slice(), '\'');
    let normalized = lower_chars(q2.as_slice());
    if normalized.len() == 0 {
        return false;
    }
    let part = last_path_part_exec(normalized.as_slice());
    let l1 = crate::text::trim_char_chars(part.as_slice(), '"');
    let leaf = crate::text::trim_char_chars(l1.as_slice(), '\'');
    let exe = chars_of(".exe");
    proof {
        reveal_strlit(".exe");
    }
    let stem = if chars_ends_with(leaf.as_slice(), exe.as_slice()) {
        slice_chars(leaf.as_slice(), 0, leaf.len() - 4)
    } else {
        slice_chars(leaf.as_slice(), 0, leaf.len())
    };
    let program = is_lit(&stem, "chrome") || is_lit(&stem, "msedge") || is_lit(&stem, "firefox")
        || is_lit(&stem, "brave") || is_lit(&stem, "opera") || is_lit(&stem, "iexplore")
        || is_lit(&stem, "microsoftedge") || is_lit(&stem, "microsoft-edge") || is_lit(&stem, "edge")
        || is_lit(&stem, "browser");
    let n = &normalized;
    let mentioned = has_lit(n, "chrome.exe") || has_lit(n, "msedge.exe") || has_lit(n, "firefox.exe")
        || has_lit(n, "brave.exe") || has_lit(n, "opera.exe") || has_lit(n, "iexplore.exe")
        || has_lit(n, "microsoft-edge:") || has_lit(n, "start chrome") || has_lit(n, "start msedge")
        || has_lit(n, "start firefox") || has_lit(n, "start brave") || has_lit(n, "start opera");
    proof {
        let nn = lower_seq(unquoted(trim_seq(raw@)));
        assert(normalized@ == nn);
        let leaf_s = unquoted(last_path_part(nn));
        assert(leaf@ == leaf_s);
        let stem_s = if ends_with(leaf_s, ".exe"@) { leaf_s.subrange(0, leaf_s.len() - 4) } else { leaf_s };
        assert(stem@ == stem_s);
        assert(program == is_browser_program(stem_s));
        assert(mentioned == mentions_browser(nn));
    }
    program || mentioned
}

/// Whether a launch request would start a browser: one of its target
/// arguments (`command`, `application_path`, `app_path`, `executable`,
/// `app_name`, `bash_command`, each trimmed and present) or one of its
/// `args` names a browser.
pub open spec fn launches_browser(targets: Seq<Option<String>>, args: Option<Seq<String>>) -> bool {
    let in_targets = exists|i: int| 0 <= i < targets.len() && (#[trigger] targets[i] matches Some(t) && is_browser_target(t@));
    let in_args = match args {
        Some(a) => any_browser_arg(a),
        None => false,
    };
    in_targets || in_args
}

/// Whether one of the arguments names a browser.
pub open spec fn any_browser_arg(a: Seq<String>) -> bool {
    exists|i: int| 0 <= i < a.len() && is_browser_target(#[trigger] a[i]@)
}

/// Tells whether a launch request would start a browser (see
/// `launches_browser`). `args` holds the string items of the `args` array.
pub fn is_browser_launch_request(targets: &Vec<Option<String>>, args: Option<&Vec<String>>) -> (r: bool)
    ensures
        r == launches_browser(targets@, match args {
            Some(a) => Some(a@),
            None => None,
        }),
{
    let mut i: usize = 0;
    while i < targets.len()
        invariant
            i <= targets.len(),
            forall|j: int| 0 <= j < i ==> !(#[trigger] targets@[j] matches Some(t) && is_browser_target(t@)),
        decreases targets.len() - i,
    {
        match &targets[i] {
            Some(t) => {
                if looks_like_browser_target(t.as_str()) {
                    return true;
                }
            },
            None => {},
        }
        i += 1;
    }
    match args {
        None => false,
        Some(a) => {
            let mut k: usize = 0;
            while k < a.len()
                invariant
                    k <= a.len(),
                    args == Some(a),
                    forall|j: int| 0 <= j < targets@.len() ==> !(#[trigger] targets@[j] matches Some(t) && is_browser_target(t@)),
                    forall|j: int| 0 <= j < k ==> !is_browser_target(#[trigger] a@[j]@),
                decreases a.len() - k,
            {
                if looks_like_browser_target(a[k].as_str()) {
                    let ghost sv = a@;
                    assert(is_browser_target(sv[k as int]@));
                    assert(any_browser_arg(sv));
                    return true;
                }
                k += 1;
            }
            false
        },
    }
}

pub open spec fn browser_launch_refusal() -> Seq<char> {
    "Browser operations must use tool=browser only. Use browser action=start/open/navigate instead of desktop.launch_application."@
}

pub open spec fn missing_command_message() -> Seq<char> {
    "'command' is required (or use 'application_path' / 'app_path' / 'executable' / 'app_name' / 'bash_command')"@
}

/// What `launch_application` starts.
#[derive(Debug, Clone)]
pub enum LaunchPlan {
    /// A PowerShell script.
    Script(String),
    /// A program with arguments.
    Program(String, Vec<String>),
}

/// What a launch request starts: browsers are refused; a `bash_command`
/// script runs in PowerShell; else the first present of `command`,
/// `application_path`, `app_path`, `executable` and `app_name` runs with
/// the `args`; one of them is required. `bash_command` and `commands` are
/// the trimmed, present arguments.
pub fn plan_launch(
    browser_requested: bool,
    bash_command: Option<String>,
    commands: &Vec<Option<String>>,
    args: Vec<String>,
) -> (r: Result<LaunchPlan, String>)
    ensures
        browser_requested ==> (r matches Err(e) && e@ == browser_launch_refusal()),
        !browser_requested && bash_command is Some ==> (r matches Ok(LaunchPlan::Script(s)) && s == bash_command->0),
        !browser_requested && bash_command is None ==> match crate::permissions::first_path(
            commands@.map_values(|o: Option<String>| crate::permissions::opt_string_view(o)),
        ) {
            Some(c) => r matches Ok(LaunchPlan::Program(p, a)) && p@ == c && a@ == args@,
            None => r matches Err(e) && e@ == missing_command_message(),
        },
{
    if browser_requested {
        return Err(owned("Browser operations must use tool=browser only. Use browser action=start/open/navigate instead of desktop.launch_application."));
    }
    if let Some(script) = bash_command {
        return Ok(LaunchPlan::Script(script));
    }
    match crate::permissions::extract_tool_path_argument(commands) {
        Some(c) => Ok(LaunchPlan::Program(c, args)),
        None => Err(owned("'command' is required (or use 'application_path' / 'app_path' / 'executable' / 'app_name' / 'bash_command')")),
    }
}

pub open spec fn text_alias_note() -> Seq<char> {
    "Compat: params.text was used as keyboard_input.keys."@
}

pub open spec fn missing_keys_note() -> Seq<char> {
    "Warning: keyboard_input expected params.keys; missing value treated as empty key sequence."@
}

/// The keys of `keyboard_input`: the `keys` argument; else the `text`
/// argument, with a note; else nothing, with a warning.
pub fn read_keyboard_sequence(keys: Option<&str>, text: Option<&str>) -> (r: (String, Option<String>))
    ensures
        match keys {
            Some(k) => r.0@ == k@ && r.1 is None,
            None => match text {
                Some(t) => r.0@ == t@ && (r.1 matches Some(n) && n@ == text_alias_note()),
                None => r.0@.len() == 0 && (r.1 matches Some(n) && n@ == missing_keys_note()),
            },
        },
{
    if let Some(k) = keys {
        return (owned(k), None);
    }
    if let Some(t) = text {
        return (owned(t), Some(owned("Compat: params.text was used as keyboard_input.keys.")));
    }
    (String::new(), Some(owned("Warning: keyboard_input expected params.keys; missing value treated as empty key sequence.")))
}

/// The scroll distance of `wheel_mouse_input`: the given one (or -3),
/// within -200..=200.
pub fn wheel_distance(raw: Option<i64>) -> (r: i32)
    ensures
        r == (match raw {
            Some(v) => if v < -200 { -200 } else if v > 200 { 200 } else { v as int },
            None => -3,
        }),
{
    let v = match raw {
        Some(v) => v,
        None => -3,
    };
    if v < -200 {
        -200
    } else if v > 200 {
        200
    } else {
        v as i32
    }
}

/// `Unsupported desktop action: <action>`.
pub fn unsupported_action_message(action: &str) -> (r: String)
    ensures
        r@ == "Unsupported desktop action: "@ + action@,
{
    let mut out = chars_of("Unsupported desktop action: ");
    let a = chars_of(action);
    push_all(&mut out, a.as_slice());
    string_of(out.as_slice())
}

/// A text read from a control, trimmed.
pub fn trim_to_non_empty(value: String) -> (r: String)
    ensures
        r@ == trim_seq(value@),
{
    crate::text::trim(value.as_str())
}

/// The fields asked for by `field_list`: its string items, trimmed and not
/// blank; nothing when there are none. `items` are the array's items that
/// are strings (`None` for the others), or nothing when it is not an array.
pub fn read_field_list(items: Option<&Vec<Option<String>>>) -> (r: Option<Vec<String>>)
    ensures
        match items {
            None => r is None,
            Some(v) => {
                let kept = crate::catalog::present_trimmed(v@);
                (kept.len() == 0 <==> r is None) && (r matches Some(out) ==> string_views(out@) == kept)
            },
        },
{
    let v = match items {
        Some(v) => v,
        None => {
            return None;
        },
    };
    let mut out: Vec<String> = Vec::new();
    let mut i: usize = 0;
    while i < v.len()
        invariant
            i <= v.len(),
            string_views(out@) =~= crate::catalog::present_trimmed(v@.take(i as int)),
        decreases v.len() - i,
    {
        proof {
            assert(v@.take(i + 1).drop_last() =~= v@.take(i as int));
            assert(v@.take(i + 1).last() == v@[i as int]);
        }
        match crate::text::trim_present(&v[i]) {
            Some(t) => {
                let ghost before = string_views(out@);
                out.push(t);
                assert(string_views(out@) =~= before.push(out@.last()@));
            },
            None => {},
        }
        i += 1;
    }
    assert(v@.take(v.len() as int) =~= v@);
    if out.len() == 0 {
        None
    } else {
        Some(out)
    }
}

/// Sorted by `text_le`.
pub open spec fn texts_sorted(s: Seq<Seq<char>>) -> bool {
    forall|i: int, j: int| 0 <= i < j < s.len() ==> text_le(#[trigger] s[i], #[trigger] s[j])
}

/// Sorts texts (`slice::sort` on `String`s).
pub fn sort_texts(v: Vec<Vec<char>>) -> (r: Vec<Vec<char>>)
    ensures
        texts_sorted(views(r@)),
        views(r@).to_multiset() == views(v@).to_multiset(),
{
    let mut out: Vec<Vec<char>> = Vec::new();
    let mut i: usize = 0;
    let mut src = v;
    let ghost original = views(src@);
    proof {
        assert(original.take(0) =~= Seq::<Seq<char>>::empty());
        assert(views(out@) =~= Seq::<Seq<char>>::empty());
    }
    while i < src.len()
        invariant
            i <= src.len(),
            views(src@) == original,
            texts_sorted(views(out@)),
            views(out@).to_multiset() == original.take(i as int).to_multiset(),
        decreases src.len() - i,
    {
        let x = crate::text::copy_chars(&src[i]);
        let mut p: usize = 0;
        while p < out.len() && !chars_le(x.as_slice(), out[p].as_slice())
            invariant
                p <= out.len(),
                forall|k: int| 0 <= k < p ==> !text_le(x@, #[trigger] views(out@)[k]),
            decreases out.len() - p,
        {
            p += 1;
        }
        let ghost before = views(out@);
        out.insert(p, x);
        proof {
            let after = views(out@);
            assert(after =~= before.insert(p as int, x@));
            assert forall|a: int, b: int| 0 <= a < b < after.len() implies text_le(#[trigger] after[a], #[trigger] after[b]) by {
                if b < p {
                    assert(after[a] == before[a] && after[b] == before[b]);
                } else if b == p {
                    assert(after[a] == before[a]);
                    assert(!text_le(x@, before[a]));
                    lemma_text_le_total(x@, before[a]);
                } else if a < p {
                    assert(after[a] == before[a] && after[b] == before[b - 1]);
                    if p < before.len() {
                        lemma_text_le_total(x@, before[a]);
                        assert(text_le(x@, before[p as int]));
                        lemma_text_le_trans(before[a], x@, before[p as int]);
                        if b - 1 > p {
                            lemma_text_le_trans(before[a], before[p as int], before[b - 1]);
                        }
                    }
                } else if a == p {
                    assert(after[b] == before[b - 1]);
                    assert(text_le(x@, before[p as int]));
                    if b - 1 > p {
                        lemma_text_le_trans(x@, before[p as int], before[b - 1]);
                    }
                } else {
                    assert(after[a] == before[a - 1] && after[b] == before[b - 1]);
                }
            }
            vstd::seq_lib::to_multiset_insert(before, p as int, x@);
            assert(original.take(i + 1) =~= original.take(i as int).push(original[i as int]));
            original.take(i as int).to_multiset_ensures();
        }
        i += 1;
    }
    assert(original.take(src.len() as int) =~= original);
    out
}

/// The ids of controls, in order.
pub open spec fn control_ids(cs: Seq<ControlSnapshot>) -> Seq<Seq<char>> {
    cs.map_values(|c: ControlSnapshot| c.id@)
}

/// How sorted control ids are listed in an error: `[]` when there are
/// none, else the first twenty (and `...` when there are more), joined by
/// `, ` in square brackets.
pub open spec fn ids_summary(sorted: Seq<Seq<char>>) -> Seq<char> {
    if sorted.len() == 0 {
        "[]"@
    } else {
        let shown = if sorted.len() > 20 { sorted.take(20).push("..."@) } else { sorted };
        "["@ + join_seq(shown, ", "@) + "]"@
    }
}

/// The summary of the ids of these controls, sorted.
pub open spec fn is_ids_summary_of(r: Seq<char>, cs: Seq<ControlSnapshot>) -> bool {
    exists|s: Seq<Seq<char>>|
        #![trigger ids_summary(s)]
        texts_sorted(s) && s.to_multiset() == control_ids(cs).to_multiset() && r == ids_summary(s)
}

/// Lists sorted ids (see `ids_summary`).
pub fn summarize_sorted_ids(sorted: Vec<Vec<char>>) -> (r: String)
    ensures
        r@ == ids_summary(views(sorted@)),
{
    proof {
        reveal_strlit("[]");
        reveal_strlit("[");
        reveal_strlit("]");
        reveal_strlit("...");
        reveal_strlit(", ");
    }
    if sorted.len() == 0 {
        return owned("[]");
    }
    let mut shown = sorted;
    if shown.len() > 20 {
        let ghost all = views(shown@);
        shown.truncate(20);
        shown.push(chars_of("..."));
        assert(views(shown@) =~= all.take(20).push("..."@));
    }
    let mut out = chars_of("[");
    let sep = chars_of(", ");
    let body = join_chars(&shown, sep.as_slice());
    push_all(&mut out, body.as_slice());
    let close = chars_of("]");
    push_all(&mut out, close.as_slice());
    string_of(out.as_slice())
}

/// The ids of the cached controls, sorted and listed for an error
/// message (see `ids_summary`).
pub fn summarize_control_ids(cached_controls: &Vec<ControlSnapshot>) -> (r: String)
    ensures
        is_ids_summary_of(r@, cached_controls@),
{
    let mut ids: Vec<Vec<char>> = Vec::new();
    let mut i: usize = 0;
    while i < cached_controls.len()
        invariant
            i <= cached_controls.len(),
            views(ids@) =~= control_ids(cached_controls@.take(i as int)),
        decreases cached_controls.len() - i,
    {
        let ghost before = views(ids@);
        ids.push(chars_of(cached_controls[i].id.as_str()));
        proof {
            assert(views(ids@) =~= before.push(cached_controls@[i as int].id@));
            assert(cached_controls@.take(i + 1) =~= cached_controls@.take(i as int).push(cached_controls@[i as int]));
        }
        i += 1;
    }
    assert(cached_controls@.take(cached_controls.len() as int) =~= cached_controls@);
    let sorted = sort_texts(ids);
    let ghost s = views(sorted@);
    let r = summarize_sorted_ids(sorted);
    assert(texts_sorted(s) && s.to_multiset() == control_ids(cached_controls@).to_multiset() && r@ == ids_summary(s));
    r
}

/// The control id argument: a string one, trimmed, unless blank; else a
/// positive integer one, in decimal.
pub open spec fn control_id_value(text: Option<&str>, number: Option<i64>) -> Option<Seq<char>> {
    match text {
        Some(t) if trim_seq(t@).len() > 0 => Some(trim_seq(t@)),
        _ => match number {
            Some(n) if n > 0 => Some(crate::text::decimal_seq(n as nat)),
            _ => None,
        },
    }
}

/// Reads the control id argument (see `control_id_value`). `text` is the
/// `control_id` (or else `id`) argument when it is a string, `number`
/// when it is an integer.
pub fn read_control_id(text: Option<&str>, number: Option<i64>) -> (r: Option<String>)
    ensures
        match control_id_value(text, number) {
            Some(v) => r matches Some(s) && s@ == v,
            None => r is None,
        },
{
    if let Some(t) = text {
        if let Some(v) = crate::text::trim_non_blank(t) {
            return Some(v);
        }
    }
    match number {
        Some(n) if n > 0 => Some(crate::text::decimal_text(n as u64)),
        _ => None,
    }
}

/// A control found by id, with the name that was asked for and whether it
/// matches.
pub struct ResolvedControl {
    pub control: ControlSnapshot,
    pub requested_name: Option<String>,
    pub name_verified: bool,
}

/// Whether two control snapshots hold the same values.
pub open spec fn same_control(a: ControlSnapshot, b: ControlSnapshot) -> bool {
    &&& a.id@ == b.id@
    &&& a.name@ == b.name@
    &&& a.class_name@ == b.class_name@
    &&& a.rect == b.rect
    &&& a.parent_window_id@ == b.parent_window_id@
    &&& a.hwnd == b.hwnd
}

fn copy_control(c: &ControlSnapshot) -> (r: ControlSnapshot)
    ensures
        same_control(r, *c),
{
    ControlSnapshot {
        id: c.id.clone(),
        name: c.name.clone(),
        class_name: c.class_name.clone(),
        rect: c.rect,
        parent_window_id: c.parent_window_id.clone(),
        hwnd: c.hwnd,
    }
}

/// Whether position `i` holds the first control with this id.
pub open spec fn first_with_id(cs: Seq<ControlSnapshot>, id: Seq<char>, i: int) -> bool {
    &&& 0 <= i < cs.len()
    &&& cs[i].id@ == id
    &&& forall|j: int| 0 <= j < i ==> #[trigger] cs[j].id@ != id
}

pub open spec fn control_id_required_message() -> Seq<char> {
    "Control id is required. Provide params.control_id or params.id."@
}

/// Finds the cached control an action names: the first with the given id
/// (see `read_control_id`); `name` is the `name` argument, trimmed and kept
/// unless blank, and the control's name must equal it to count as
/// verified.
pub fn resolve_control(
    id_text: Option<&str>,
    id_number: Option<i64>,
    name: Option<&str>,
    cached_controls: &Vec<ControlSnapshot>,
) -> (r: Result<ResolvedControl, String>)
    ensures
        match control_id_value(id_text, id_number) {
            None => r matches Err(e) && e@ == control_id_required_message(),
            Some(id) => if exists|i: int| 0 <= i < cached_controls@.len() && #[trigger] cached_controls@[i].id@ == id {
                r matches Ok(rc) && exists|i: int| #[trigger] first_with_id(cached_controls@, id, i)
                    && same_control(rc.control, cached_controls@[i])
                    && opt_view(rc.requested_name) == (match name {
                        Some(n) => if trim_seq(n@).len() > 0 { Some(trim_seq(n@)) } else { None },
                        None => None,
                    })
                    && rc.name_verified == (match name {
                        Some(n) => trim_seq(n@).len() > 0 && cached_controls@[i].name@ == trim_seq(n@),
                        None => false,
                    })
            } else {
                r matches Err(e) && exists|sum: Seq<char>| #[trigger] is_ids_summary_of(sum, cached_controls@)
                    && e@ == "Control with id '"@ + id + "' not found. Available ids: "@ + sum
            },
        },
{
    let raw_id = match read_control_id(id_text, id_number) {
        Some(v) => v,
        None => {
            return Err(owned("Control id is required. Provide params.control_id or params.id."));
        },
    };
    let ghost id = raw_id@;
    let mut i: usize = 0;
    let mut found: Option<usize> = None;
    while i < cached_controls.len()
        invariant_except_break
            found is None,
        invariant
            i <= cached_controls.len(),
            raw_id@ == id,
            forall|j: int| 0 <= j < i ==> #[trigger] cached_controls@[j].id@ != id,
        ensures
            match found {
                Some(k) => first_with_id(cached_controls@, id, k as int),
                None => forall|j: int| 0 <= j < cached_controls@.len() ==> #[trigger] cached_controls@[j].id@ != id,
            },
        decreases cached_controls.len() - i,
    {
        if str_eq(cached_controls[i].id.as_str(), raw_id.as_str()) {
            found = Some(i);
            break;
        }
        i += 1;
    }
    match found {
        None => {
            let summary = summarize_control_ids(cached_controls);
            let mut msg = chars_of("Control with id '");
            let idc = chars_of(raw_id.as_str());
            push_all(&mut msg, idc.as_slice());
            let mid = chars_of("' not found. Available ids: ");
            push_all(&mut msg, mid.as_slice());
            let sc = chars_of(summary.as_str());
            push_all(&mut msg, sc.as_slice());
            let e = string_of(msg.as_slice());
            assert(e@ == "Control with id '"@ + id + "' not found. Available ids: "@ + summary@);
            Err(e)
        },
        Some(k) => {
            let control = copy_control(&cached_controls[k]);
            let requested_name = match name {
                Some(n) => crate::text::trim_non_blank(n),
                None => None,
            };
            let name_verified = match &requested_name {
                Some(n) => str_eq(control.name.as_str(), n.as_str()),
                None => false,
            };
            Ok(ResolvedControl { control, requested_name, name_verified })
        },
    }
}

/// A file in the screenshot directory.
#[derive(Debug, Clone)]
pub struct ScreenshotFile {
    /// Its extension, when it has one that is valid UTF-8.
    pub extension: Option<String>,
    /// When it was last modified, in nanoseconds since 1970 (0 when
    /// unknown).
    pub modified_nanos: u128,
}

/// Whether a file is a PNG image: its extension is `png` in any ASCII case.
pub open spec fn is_png(f: ScreenshotFile) -> bool {
    f.extension matches Some(e) && lower_seq(e@) == "png"@
}

/// The positions of the PNG files, in directory order.
pub open spec fn png_positions(files: Seq<ScreenshotFile>) -> Seq<usize>
    decreases files.len(),
{
    if files.len() == 0 {
        Seq::empty()
    } else {
        let prev = png_positions(files.drop_last());
        if is_png(files.last()) {
            prev.push((files.len() - 1) as usize)
        } else {
            prev
        }
    }
}

/// Which screenshots a cleanup deletes, so that `keep_count` remain: none
/// when there are no more PNG files than that; else the oldest ones (by
/// modification time, earlier in the directory first on ties), in that
/// order, given by the sorting order `order` of the PNG files.
pub open spec fn screenshots_removed(files: Seq<ScreenshotFile>, keep_count: nat, order: Seq<usize>) -> Seq<usize> {
    let pngs = png_positions(files);
    if pngs.len() <= keep_count {
        Seq::empty()
    } else {
        order.take(pngs.len() - keep_count).map_values(|k: usize| pngs[k as int])
    }
}

/// The modification times of the PNG files, in directory order.
pub open spec fn png_times(files: Seq<ScreenshotFile>) -> Seq<u128> {
    png_positions(files).map_values(|i: usize| files[i as int].modified_nanos)
}

/// The positions (in `files`) of the screenshots to delete so that
/// `keep_count` remain (see `screenshots_removed`).
pub fn screenshots_to_remove(files: &Vec<ScreenshotFile>, keep_count: usize) -> (r: Vec<usize>)
    ensures
        exists|order: Seq<usize>| is_stable_number_order(png_times(files@), order)
            && r@ == #[trigger] screenshots_removed(files@, keep_count as nat, order),
{
    let mut pngs: Vec<usize> = Vec::new();
    let mut times: Vec<u128> = Vec::new();
    let mut i: usize = 0;
    let png = chars_of("png");
    while i < files.len()
        invariant
            i <= files.len(),
            png@ == "png"@,
            pngs@ == png_positions(files@.take(i as int)),
            times@ == pngs@.map_values(|k: usize| files@[k as int].modified_nanos),
            forall|k: int| 0 <= k < pngs@.len() ==> #[trigger] pngs@[k] < i,
        decreases files.len() - i,
    {
        proof {
            assert(files@.take(i + 1).drop_last() =~= files@.take(i as int));
            assert(files@.take(i + 1).last() == files@[i as int]);
        }
        let is_png_file = match &files[i].extension {
            Some(e) => {
                let ec = chars_of(e.as_str());
                let lower = lower_chars(ec.as_slice());
                chars_eq(lower.as_slice(), png.as_slice())
            },
            None => false,
        };
        if is_png_file {
            pngs.push(i);
            times.push(files[i].modified_nanos);
            assert(times@ =~= pngs@.map_values(|k: usize| files@[k as int].modified_nanos));
        }
        i += 1;
    }
    assert(files@.take(files.len() as int) =~= files@);
    let order = stable_number_order(&times);
    let mut out: Vec<usize> = Vec::new();
    if pngs.len() <= keep_count {
        assert(out@ =~= screenshots_removed(files@, keep_count as nat, order@));
        return out;
    }
    let remove_count = pngs.len() - keep_count;
    let mut k: usize = 0;
    while k < remove_count
        invariant
            k <= remove_count,
            remove_count <= order@.len(),
            order@.len() == pngs@.len(),
            forall|a: int| 0 <= a < order@.len() ==> #[trigger] order@[a] < pngs@.len(),
            out@ =~= order@.take(k as int).map_values(|x: usize| pngs@[x as int]),
        decreases remove_count - k,
    {
        out.push(pngs[order[k]]);
        proof {
            assert(order@.take(k + 1) =~= order@.take(k as int).push(order@[k as int]));
        }
        k += 1;
    }
    assert(out@ =~= screenshots_removed(files@, keep_count as nat, order@));
    out
}

/// The window a title search finds: the first whose title, in Unicode
/// lowercase, contains the text in Unicode lowercase.
pub open spec fn first_title_match(windows: Seq<WindowSnapshot>, needle: Seq<char>, i: int) -> bool {
    &&& 0 <= i < windows.len()
    &&& contains_seq(crate::text::unicode_lowercased(windows[i].title@), crate::text::unicode_lowercased(needle))
    &&& forall|j: int| 0 <= j < i ==> !contains_seq(
        crate::text::unicode_lowercased(#[trigger] windows[j].title@),
        crate::text::unicode_lowercased(needle),
    )
}

/// Finds the window of a `title_contains` target (see `first_title_match`):
/// its handle, or an error naming the text.
pub fn find_window_by_title(windows: &Vec<WindowSnapshot>, title_contains: &str) -> (r: Result<i64, String>)
    ensures
        match r {
            Ok(h) => exists|i: int| #[trigger] first_title_match(windows@, title_contains@, i) && windows@[i].hwnd == h,
            Err(e) => (forall|j: int| 0 <= j < windows@.len() ==> !contains_seq(
                crate::text::unicode_lowercased(#[trigger] windows@[j].title@),
                crate::text::unicode_lowercased(title_contains@),
            )) && e@ == "No window matched title_contains='"@ + title_contains@ + "'"@,
        },
{
    let needle = crate::text::to_lowercase_text(title_contains);
    let nc = chars_of(needle.as_str());
    let mut i: usize = 0;
    while i < windows.len()
        invariant
            i <= windows.len(),
            nc@ == crate::text::unicode_lowercased(title_contains@),
            forall|j: int| 0 <= j < i ==> !contains_seq(
                crate::text::unicode_lowercased(#[trigger] windows@[j].title@),
                crate::text::unicode_lowercased(title_contains@),
            ),
        decreases windows.len() - i,
    {
        let title = crate::text::to_lowercase_text(windows[i].title.as_str());
        let tc = chars_of(title.as_str());
        if chars_contains(tc.as_slice(), nc.as_slice()) {
            assert(first_title_match(windows@, title_contains@, i as int));
            return Ok(windows[i].hwnd);
        }
        i += 1;
    }
    let mut msg = chars_of("No window matched title_contains='");
    let t = chars_of(title_contains);
    push_all(&mut msg, t.as_slice());
    let close = chars_of("'");
    push_all(&mut msg, close.as_slice());
    Err(string_of(msg.as_slice()))
}

} // verus!
