//! Browser sidecar naming and launch decisions.
//!
//! Profile directory names are derived from user-supplied profile names; the
//! launch specification and the help text shown when the sidecar does not
//! start are built from values that the caller gathered from the machine.

use vstd::prelude::*;
use crate::text::{
    chars_of, string_of, char_is_ascii_alnum, char_lower, lower_char, is_ascii_alnum, owned,
    push_all, join_seq, views, join_chars, slice_chars, string_views,
};

verus! {

/// The name used when a profile name has no usable character.
pub open spec fn default_profile_dir_name() -> Seq<char> {
    "openclaw"@
}

/// One character of a profile directory name: ASCII letters and digits are
/// lowercased, `-` and `_` are kept, anything else becomes `-`.
pub open spec fn profile_char(c: char) -> char {
    if is_ascii_alnum(c) || c == '-' || c == '_' {
        lower_char(c)
    } else {
        '-'
    }
}

pub open spec fn profile_chars(s: Seq<char>) -> Seq<char> {
    s.map_values(|c: char| profile_char(c))
}

/// Number of leading `-`.
pub open spec fn dash_prefix_len(s: Seq<char>) -> nat
    decreases s.len(),
{
    if s.len() > 0 && s[0] == '-' {
        1 + dash_prefix_len(s.subrange(1, s.len() as int))
    } else {
        0
    }
}

/// Number of trailing `-`.
pub open spec fn dash_suffix_len(s: Seq<char>) -> nat
    decreases s.len(),
{
    if s.len() > 0 && s.last() == '-' {
        1 + dash_suffix_len(s.drop_last())
    } else {
        0
    }
}

/// `str::trim_matches('-')`.
pub open spec fn trim_dashes(s: Seq<char>) -> Seq<char> {
    let t = s.subrange(dash_prefix_len(s) as int, s.len() as int);
    t.subrange(0, t.len() - dash_suffix_len(t))
}

/// The directory name of a browser profile.
pub open spec fn profile_dir_name(s: Seq<char>) -> Seq<char> {
    let t = trim_dashes(profile_chars(s));
    if t.len() == 0 {
        default_profile_dir_name()
    } else {
        t
    }
}

proof fn lemma_dash_prefix_len(s: Seq<char>, i: int)
    requires
        0 <= i <= s.len(),
        forall|j: int| 0 <= j < i ==> s[j] == '-',
        i == s.len() || s[i] != '-',
    ensures
        dash_prefix_len(s) == i,
    decreases i,
{
    if i > 0 {
        let t = s.subrange(1, s.len() as int);
        assert forall|j: int| 0 <= j < i - 1 implies t[j] == '-' by {
            assert(t[j] == s[j + 1]);
        }
        if i - 1 < t.len() {
            assert(t[i - 1] == s[i]);
        }
        lemma_dash_prefix_len(t, i - 1);
    }
}

proof fn lemma_dash_suffix_len(s: Seq<char>, k: int)
    requires
        0 <= k <= s.len(),
        forall|j: int| s.len() - k <= j < s.len() ==> s[j] == '-',
        k == s.len() || s[s.len() - k - 1] != '-',
    ensures
        dash_suffix_len(s) == k,
    decreases k,
{
    if k > 0 {
        let t = s.drop_last();
        assert forall|j: int| t.len() - (k - 1) <= j < t.len() implies t[j] == '-' by {
            assert(t[j] == s[j]);
        }
        if k - 1 < t.len() {
            assert(t[t.len() - (k - 1) - 1] == s[s.len() - k - 1]);
        }
        lemma_dash_suffix_len(t, k - 1);
    }
}

/// `str::trim_matches('-')` over characters.
fn trim_dash_chars(s: &[char]) -> (r: Vec<char>)
    ensures
        r@ == trim_dashes(s@),
{
    let mut a: usize = 0;
    while a < s.len() && s[a] == '-'
        invariant
            a <= s.len(),
            forall|j: int| 0 <= j < a ==> s@[j] == '-',
        decreases s.len() - a,
    {
        a += 1;
    }
    proof {
        lemma_dash_prefix_len(s@, a as int);
    }
    let ghost t = s@.subrange(a as int, s.len() as int);
    let mut b: usize = s.len();
    while b > a && s[b - 1] == '-'
        invariant
            a <= b <= s.len(),
            forall|j: int| b <= j < s.len() ==> s@[j] == '-',
        decreases b,
    {
        b -= 1;
    }
    proof {
        let k = s.len() - b;
        assert forall|j: int| t.len() - k <= j < t.len() implies t[j] == '-' by {
            assert(t[j] == s@[j + a]);
        }
        if k < t.len() {
            assert(t[t.len() - k - 1] == s@[b - 1]);
        }
        lemma_dash_suffix_len(t, k as int);
        assert(trim_dashes(s@) =~= s@.subrange(a as int, b as int));
    }
    slice_chars(s, a, b)
}

/// Turns a profile name into a safe directory name: every character other
/// than an ASCII letter, digit, `-` or `_` becomes `-`, letters are
/// lowercased, leading and trailing `-` are removed, and an empty result
/// becomes `openclaw`.
pub fn sanitize_profile_name(value: &str) -> (r: String)
    ensures
        r@ == profile_dir_name(value@),
{
    let cs = chars_of(value);
    let mut cleaned: Vec<char> = Vec::new();
    let mut i: usize = 0;
    while i < cs.len()
        invariant
            i <= cs.len(),
            cs@ == value@,
            cleaned@ =~= profile_chars(cs@.take(i as int)),
        decreases cs.len() - i,
    {
        let ch = cs[i];
        let mapped = if char_is_ascii_alnum(ch) || ch == '-' || ch == '_' {
            char_lower(ch)
        } else {
            '-'
        };
        cleaned.push(mapped);
        i += 1;
        assert(profile_chars(cs@.take(i as int)) =~= profile_chars(cs@.take((i - 1) as int)).push(
            profile_char(cs@[i - 1]),
        ));
    }
    assert(cs@.take(cs.len() as int) =~= cs@);
    let trimmed = trim_dash_chars(cleaned.as_slice());
    if trimmed.len() == 0 {
        owned("openclaw")
    } else {
        string_of(trimmed.as_slice())
    }
}

/// How the browser sidecar process is started.
pub struct SidecarLaunchSpec {
    pub program: String,
    pub args: Vec<String>,
}

/// Directories handed to the browser sidecar.
pub struct BrowserSidecarPaths {
    pub profiles_root: String,
    pub app_log_dir: String,
}

pub open spec fn sidecar_entry_missing_message() -> Seq<char> {
    "Browser sidecar entry not found. Set PETOOL_BROWSER_SIDECAR_ENTRY or run scripts/browser/prepare-sidecar.mjs."@
}

/// Picks the sidecar entry script: the first of `candidates` (in the order
/// they are searched) whose `present` flag is set, or the error telling the
/// user how to provide one. `present[i]` tells whether `candidates[i]` is on
/// disk.
pub fn resolve_sidecar_entry(candidates: &Vec<String>, present: &Vec<bool>) -> (r: Result<String, String>)
    requires
        candidates.len() == present.len(),
    ensures
        match r {
            Ok(p) => exists|i: int| 0 <= i < present.len() && present@[i]
                && (forall|j: int| 0 <= j < i ==> !present@[j]) && p@ == candidates@[i]@,
            Err(e) => (forall|i: int| 0 <= i < present.len() ==> !present@[i])
                && e@ == sidecar_entry_missing_message(),
        },
{
    let mut i: usize = 0;
    while i < candidates.len()
        invariant
            i <= candidates.len(),
            candidates.len() == present.len(),
            forall|j: int| 0 <= j < i ==> !present@[j],
        decreases candidates.len() - i,
    {
        if present[i] {
            let p = candidates[i].clone();
            return Ok(p);
        }
        i += 1;
    }
    Err(owned("Browser sidecar entry not found. Set PETOOL_BROWSER_SIDECAR_ENTRY or run scripts/browser/prepare-sidecar.mjs."))
}

/// The launch specification: the bundled node binary when one was found,
/// else `node` from the path, running the entry script.
pub fn resolve_sidecar_launch_spec(entry: Result<String, String>, node_binary: Option<String>) -> (r: Result<SidecarLaunchSpec, String>)
    ensures
        match entry {
            Ok(e) => r matches Ok(spec) && spec.args@.len() == 1 && spec.args@[0]@ == e@
                && spec.program@ == (match node_binary {
                    Some(n) => n@,
                    None => "node"@,
                }),
            Err(msg) => r matches Err(m) && m@ == msg@,
        },
{
    match entry {
        Ok(e) => {
            let program = match node_binary {
                Some(n) => n,
                None => owned("node"),
            };
            let mut args: Vec<String> = Vec::new();
            args.push(e);
            Ok(SidecarLaunchSpec { program, args })
        },
        Err(msg) => Err(msg),
    }
}

/// The text shown when the sidecar could not be started.
pub open spec fn launch_help_text(program: Seq<char>, args: Seq<Seq<char>>, stderr: Seq<char>) -> Seq<char> {
    let rendered = if args.len() == 0 {
        Seq::<char>::empty()
    } else {
        " "@ + join_seq(args, " "@)
    };
    "Failed to start browser sidecar.\nProgram: "@ + program + rendered + "\nStderr: "@ + stderr
        + "\nHints: run scripts/browser/prepare-sidecar.mjs and configure browser executable_path or cdp_url."@
}

/// Explains a failed sidecar start: the program and its arguments, what it
/// wrote to stderr, and how to prepare the sidecar.
pub fn format_launch_help(program: &str, args: &[String], stderr_excerpt: &str) -> (r: String)
    ensures
        r@ == launch_help_text(program@, string_views(args@), stderr_excerpt@),
{
    let mut parts: Vec<Vec<char>> = Vec::new();
    let mut i: usize = 0;
    while i < args.len()
        invariant
            i <= args.len(),
            views(parts@) =~= string_views(args@.take(i as int)),
        decreases args.len() - i,
    {
        parts.push(chars_of(args[i].as_str()));
        i += 1;
        assert(string_views(args@.take(i as int)) =~= string_views(args@.take((i - 1) as int)).push(
            args@[i - 1]@,
        ));
        assert(views(parts@) =~= views(parts@.drop_last()).push(parts@.last()@));
    }
    assert(args@.take(args.len() as int) =~= args@);
    let mut out: Vec<char> = chars_of("Failed to start browser sidecar.\nProgram: ");
    let pc = chars_of(program);
    push_all(&mut out, pc.as_slice());
    if args.len() > 0 {
        let sp = chars_of(" ");
        push_all(&mut out, sp.as_slice());
        let joined = join_chars(&parts, sp.as_slice());
        push_all(&mut out, joined.as_slice());
    }
    let mid = chars_of("\nStderr: ");
    push_all(&mut out, mid.as_slice());
    let se = chars_of(stderr_excerpt);
    push_all(&mut out, se.as_slice());
    let tail = chars_of("\nHints: run scripts/browser/prepare-sidecar.mjs and configure browser executable_path or cdp_url.");
    push_all(&mut out, tail.as_slice());
    proof {
        let rendered = if args.len() == 0 {
            Seq::<char>::empty()
        } else {
            " "@ + join_seq(string_views(args@), " "@)
        };
        assert(out@ =~= "Failed to start browser sidecar.\nProgram: "@ + program@ + rendered
            + "\nStderr: "@ + stderr_excerpt@
            + "\nHints: run scripts/browser/prepare-sidecar.mjs and configure browser executable_path or cdp_url."@);
    }
    string_of(out.as_slice())
}

/// Words whose presence marks a line of the sidecar's error output as
/// possibly holding a secret.
pub open spec fn has_secret_marker(lowered: Seq<char>) -> bool {
    crate::text::contains_seq(lowered, "token"@) || crate::text::contains_seq(lowered, "authorization"@)
        || crate::text::contains_seq(lowered, "api_key"@) || crate::text::contains_seq(lowered, "apikey"@)
        || crate::text::contains_seq(lowered, "password"@) || crate::text::contains_seq(lowered, "cookie"@)
}

fn contains_lit(s: &Vec<char>, lit: &str) -> (r: bool)
    ensures
        r == crate::text::contains_seq(s@, lit@),
{
    let p = chars_of(lit);
    crate::text::chars_contains(s.as_slice(), p.as_slice())
}

/// A line of the sidecar's error output as it is logged: `[redacted]` when
/// it mentions a token, authorization, API key, password or cookie (in any
/// ASCII case), else unchanged.
pub fn sanitize_stderr_line(line: &str) -> (r: String)
    ensures
        r@ == if has_secret_marker(crate::text::lower_seq(line@)) { "[redacted]"@ } else { line@ },
{
    let cs = chars_of(line);
    let lowered = crate::text::lower_chars(cs.as_slice());
    if contains_lit(&lowered, "token") || contains_lit(&lowered, "authorization") || contains_lit(&lowered, "api_key")
        || contains_lit(&lowered, "apikey") || contains_lit(&lowered, "password") || contains_lit(&lowered, "cookie") {
        return owned("[redacted]");
    }
    owned(line)
}

/// What `Path::new(base).join(name)` gives, as text.
pub uninterp spec fn path_joined(base: Seq<char>, name: Seq<char>) -> Seq<char>;

/// `Path::join` on texts: `name` added to `base` with the platform's
/// separator. The result depends on the two texts alone: it is named
/// `path_joined`.
#[verifier::external_body]
fn join_path(base: &str, name: &str) -> (r: String)
    ensures
        r@ == path_joined(base@, name@),
{
    std::path::Path::new(base).join(name).to_string_lossy().into_owned()
}

/// A base path with each name joined in turn.
pub open spec fn joined_all(base: Seq<char>, names: Seq<Seq<char>>) -> Seq<char>
    decreases names.len(),
{
    if names.len() == 0 {
        base
    } else {
        path_joined(joined_all(base, names.drop_last()), names.last())
    }
}

/// The views of string slices.
pub open spec fn str_views(v: Seq<&str>) -> Seq<Seq<char>> {
    v.map_values(|p: &str| p@)
}

fn join_all(base: &str, names: &Vec<&str>) -> (r: String)
    ensures
        r@ == joined_all(base@, str_views(names@)),
{
    let mut out = owned(base);
    let mut i: usize = 0;
    while i < names.len()
        invariant
            i <= names.len(),
            out@ == joined_all(base@, str_views(names@).take(i as int)),
        decreases names.len() - i,
    {
        proof {
            let ns = str_views(names@);
            assert(ns.take(i + 1).drop_last() =~= ns.take(i as int));
            assert(ns.take(i + 1).last() == names@[i as int]@);
        }
        out = join_path(out.as_str(), names[i]);
        i += 1;
    }
    assert(str_views(names@).take(names.len() as int) =~= str_views(names@));
    out
}

/// Where the sidecar entry script is looked for, in order: the path in
/// `PETOOL_BROWSER_SIDECAR_ENTRY`; under the working directory,
/// `browser-sidecar/dist/index.mjs` and `browser-sidecar/src/index.mjs`;
/// next to the executable, `resources/browser-sidecar/dist/index.mjs`,
/// `browser-sidecar/dist/index.mjs` and
/// `../Resources/browser-sidecar/dist/index.mjs`.
pub open spec fn sidecar_candidates(env_entry: Option<Seq<char>>, cwd: Option<Seq<char>>, exe_dir: Option<Seq<char>>) -> Seq<Seq<char>> {
    let given = match env_entry {
        Some(p) => seq![p],
        None => Seq::empty(),
    };
    let in_cwd = match cwd {
        Some(c) => seq![
            joined_all(c, seq!["browser-sidecar"@, "dist"@, "index.mjs"@]),
            joined_all(c, seq!["browser-sidecar"@, "src"@, "index.mjs"@]),
        ],
        None => Seq::empty(),
    };
    let by_exe = match exe_dir {
        Some(d) => seq![
            joined_all(d, seq!["resources"@, "browser-sidecar"@, "dist"@, "index.mjs"@]),
            joined_all(d, seq!["browser-sidecar"@, "dist"@, "index.mjs"@]),
            joined_all(d, seq![".."@, "Resources"@, "browser-sidecar"@, "dist"@, "index.mjs"@]),
        ],
        None => Seq::empty(),
    };
    given + in_cwd + by_exe
}

/// The places the sidecar entry script is looked for (see
/// `sidecar_candidates`). `env_entry` is `PETOOL_BROWSER_SIDECAR_ENTRY`
/// when set; `cwd` the working directory and `exe_dir` the executable's
/// directory, when known.
pub fn candidate_sidecar_entries(env_entry: Option<String>, cwd: Option<&str>, exe_dir: Option<&str>) -> (r: Vec<String>)
    ensures
        string_views(r@) == sidecar_candidates(
            match env_entry {
                Some(p) => Some(p@),
                None => None,
            },
            match cwd {
                Some(c) => Some(c@),
                None => None,
            },
            match exe_dir {
                Some(d) => Some(d@),
                None => None,
            },
        ),
{
    let mut out: Vec<String> = Vec::new();
    if let Some(p) = env_entry {
        out.push(p);
    }
    let ghost given = string_views(out@);
    if let Some(c) = cwd {
        let a = vec!["browser-sidecar", "dist", "index.mjs"];
        assert(str_views(a@) =~= seq!["browser-sidecar"@, "dist"@, "index.mjs"@]);
        let b = vec!["browser-sidecar", "src", "index.mjs"];
        assert(str_views(b@) =~= seq!["browser-sidecar"@, "src"@, "index.mjs"@]);
        out.push(join_all(c, &a));
        out.push(join_all(c, &b));
    }
    let ghost with_cwd = string_views(out@);
    if let Some(d) = exe_dir {
        let a = vec!["resources", "browser-sidecar", "dist", "index.mjs"];
        assert(str_views(a@) =~= seq!["resources"@, "browser-sidecar"@, "dist"@, "index.mjs"@]);
        let b = vec!["browser-sidecar", "dist", "index.mjs"];
        assert(str_views(b@) =~= seq!["browser-sidecar"@, "dist"@, "index.mjs"@]);
        let c = vec!["..", "Resources", "browser-sidecar", "dist", "index.mjs"];
        assert(str_views(c@) =~= seq![".."@, "Resources"@, "browser-sidecar"@, "dist"@, "index.mjs"@]);
        out.push(join_all(d, &a));
        out.push(join_all(d, &b));
        out.push(join_all(d, &c));
    }
    assert(string_views(out@) =~= sidecar_candidates(
        match env_entry {
            Some(p) => Some(p@),
            None => None,
        },
        match cwd {
            Some(c) => Some(c@),
            None => None,
        },
        match exe_dir {
            Some(d) => Some(d@),
            None => None,
        },
    ));
    out
}

/// The target triple the bundled node binary is named after:
/// `TAURI_ENV_TARGET_TRIPLE` when set, else `TARGET`, else nothing.
pub open spec fn target_triple(tauri_target: Option<Seq<char>>, target: Option<Seq<char>>) -> Seq<char> {
    match tauri_target {
        Some(t) => t,
        None => match target {
            Some(t) => t,
            None => Seq::empty(),
        },
    }
}

/// Where a bundled node binary is looked for next to the executable, in
/// order: `browser-node`, then, with a target triple,
/// `browser-node-<target>` and `binaries/browser-node-<target>`; with
/// `.exe` on Windows.
pub open spec fn node_candidates(exe_dir: Option<Seq<char>>, target: Seq<char>, on_windows: bool) -> Seq<Seq<char>> {
    let ext = if on_windows { ".exe"@ } else { Seq::empty() };
    match exe_dir {
        Some(d) => if target.len() == 0 {
            seq![path_joined(d, "browser-node"@ + ext)]
        } else {
            seq![
                path_joined(d, "browser-node"@ + ext),
                path_joined(d, "browser-node-"@ + target + ext),
                path_joined(path_joined(d, "binaries"@), "browser-node-"@ + target + ext),
            ]
        },
        None => Seq::empty(),
    }
}

/// The places a bundled node binary is looked for (see
/// `node_candidates`; the target is `target_triple` of the two variables).
pub fn candidate_node_binaries(exe_dir: Option<&str>, tauri_target: Option<String>, target: Option<String>, on_windows: bool) -> (r: Vec<String>)
    ensures
        string_views(r@) == node_candidates(
            match exe_dir {
                Some(d) => Some(d@),
                None => None,
            },
            target_triple(crate::text::opt_view(tauri_target), crate::text::opt_view(target)),
            on_windows,
        ),
{
    let t = match tauri_target {
        Some(t) => t,
        None => match target {
            Some(t) => t,
            None => String::new(),
        },
    };
    let mut out: Vec<String> = Vec::new();
    let d = match exe_dir {
        Some(d) => d,
        None => {
            assert(string_views(out@) =~= Seq::<Seq<char>>::empty());
            return out;
        },
    };
    let ext = if on_windows { chars_of(".exe") } else { Vec::new() };
    let mut plain = chars_of("browser-node");
    push_all(&mut plain, ext.as_slice());
    out.push(join_path(d, string_of(plain.as_slice()).as_str()));
    if t.as_str().is_empty() {
        assert(string_views(out@) =~= seq![string_views(out@)[0]]);
        return out;
    }
    let mut named = chars_of("browser-node-");
    let tc = chars_of(t.as_str());
    push_all(&mut named, tc.as_slice());
    push_all(&mut named, ext.as_slice());
    let named = string_of(named.as_slice());
    out.push(join_path(d, named.as_str()));
    let bin = join_path(d, "binaries");
    out.push(join_path(bin.as_str(), named.as_str()));
    assert(string_views(out@) =~= seq![string_views(out@)[0], string_views(out@)[1], string_views(out@)[2]]);
    out
}

/// The node binary the sidecar runs with: the one in
/// `PETOOL_BROWSER_NODE_BIN` when that exists, else the first existing
/// candidate (see `candidate_node_binaries`), else none. `exists[i]` tells
/// whether `candidates[i]` exists.
pub fn resolve_node_binary(env_path: Option<String>, env_path_exists: bool, candidates: &Vec<String>, exists: &Vec<bool>) -> (r: Option<String>)
    requires
        candidates.len() == exists.len(),
    ensures
        match env_path {
            Some(p) if env_path_exists => r matches Some(x) && x@ == p@,
            _ => match r {
                Some(x) => exists|i: int| 0 <= i < exists.len() && exists@[i]
                    && (forall|j: int| 0 <= j < i ==> !exists@[j]) && x@ == candidates@[i]@,
                None => forall|i: int| 0 <= i < exists.len() ==> !exists@[i],
            },
        },
{
    if let Some(p) = &env_path {
        if env_path_exists {
            return Some(p.clone());
        }
    }
    let mut i: usize = 0;
    while i < candidates.len()
        invariant
            i <= candidates.len(),
            env_path is None || !env_path_exists,
            candidates.len() == exists.len(),
            forall|j: int| 0 <= j < i ==> !exists@[j],
        decreases candidates.len() - i,
    {
        if exists[i] {
            return Some(candidates[i].clone());
        }
        i += 1;
    }
    None
}


/// Whether a list of named profiles has one under this name.
pub open spec fn has_profile(profiles: Seq<(String, crate::config::BrowserProfileConfig)>, name: Seq<char>) -> bool {
    exists|i: int| 0 <= i < profiles.len() && #[trigger] profiles[i].0@ == name
}

fn find_profile(profiles: &Vec<(String, crate::config::BrowserProfileConfig)>, name: &str) -> (r: bool)
    ensures
        r == has_profile(profiles@, name@),
{
    let mut i: usize = 0;
    while i < profiles.len()
        invariant
            i <= profiles@.len(),
            forall|k: int| 0 <= k < i ==> #[trigger] profiles@[k].0@ != name@,
        decreases profiles@.len() - i,
    {
        if crate::text::str_eq(profiles[i].0.as_str(), name) {
            return true;
        }
        i = i + 1;
    }
    false
}

/// The profile a browser request runs in: the requested one (else the
/// default one), with its name sanitised, when it is configured; else the
/// default profile when it is configured; else some configured profile;
/// an error when none is.
pub fn resolve_browser_profile(requested: Option<&str>, config: &crate::config::BrowserConfig) -> (r: Result<String, String>)
    ensures
        ({
            let wanted = profile_dir_name(match requested {
                Some(p) => p@,
                None => config.default_profile@,
            });
            if has_profile(config.profiles@, wanted) {
                r matches Ok(n) && n@ == wanted
            } else if has_profile(config.profiles@, config.default_profile@) {
                r matches Ok(n) && n@ == config.default_profile@
            } else if config.profiles@.len() > 0 {
                r matches Ok(n) && has_profile(config.profiles@, n@)
            } else {
                r matches Err(e) && e@ == "No browser profiles configured"@
            }
        }),
{
    let wanted = match requested {
        Some(p) => sanitize_profile_name(p),
        None => sanitize_profile_name(config.default_profile.as_str()),
    };
    if find_profile(&config.profiles, wanted.as_str()) {
        return Ok(wanted);
    }
    if find_profile(&config.profiles, config.default_profile.as_str()) {
        return Ok(owned(config.default_profile.as_str()));
    }
    if config.profiles.len() > 0 {
        let n = owned(config.profiles[0].0.as_str());
        assert(config.profiles@[0].0@ == n@);
        return Ok(n);
    }
    Err(owned("No browser profiles configured"))
}

/// Whether a browser request is refused by policy: `evaluate` runs only
/// when the configuration allows it.
pub fn browser_action_blocked(action: &str, evaluate_enabled: bool) -> (r: bool)
    ensures
        r == (action@ == "evaluate"@ && !evaluate_enabled),
{
    crate::text::str_eq(action, "evaluate") && !evaluate_enabled
}

/// How many links `browser_navigate` collects: the number asked (30 when
/// none is given) held between 1 and 200.
pub fn navigate_max_links(requested: Option<u64>) -> (r: u64)
    ensures
        r == crate::web_tools::clamped(crate::web_tools::number_or(requested, 30), 1, 200),
{
    crate::web_tools::clamp_u64(match requested { Some(v) => v, None => 30 }, 1, 200)
}

/// A character a profile directory name may hold: a lowercase ASCII
/// letter, a digit, `-` or `_`.
pub open spec fn is_dir_char(c: char) -> bool {
    crate::text::is_ascii_lower(c) || crate::text::is_ascii_digit(c) || c == '-' || c == '_'
}

proof fn lemma_dash_prefix_facts(s: Seq<char>)
    ensures
        dash_prefix_len(s) <= s.len(),
        dash_prefix_len(s) < s.len() ==> s[dash_prefix_len(s) as int] != '-',
    decreases s.len(),
{
    if s.len() > 0 && s[0] == '-' {
        let t = s.subrange(1, s.len() as int);
        lemma_dash_prefix_facts(t);
        if dash_prefix_len(t) < t.len() {
            assert(t[dash_prefix_len(t) as int] == s[dash_prefix_len(s) as int]);
        }
    }
}

proof fn lemma_dash_suffix_facts(s: Seq<char>)
    ensures
        dash_suffix_len(s) <= s.len(),
        dash_suffix_len(s) < s.len() ==> s[s.len() - dash_suffix_len(s) - 1] != '-',
    decreases s.len(),
{
    if s.len() > 0 && s.last() == '-' {
        let t = s.drop_last();
        lemma_dash_suffix_facts(t);
        if dash_suffix_len(t) < t.len() {
            assert(t[t.len() - dash_suffix_len(t) - 1] == s[s.len() - dash_suffix_len(s) - 1]);
        }
    }
}

/// A name of allowed characters without a dash at either end is its own
/// directory name.
proof fn lemma_clean_name_fixed(r: Seq<char>)
    requires
        r.len() > 0,
        forall|i: int| 0 <= i < r.len() ==> is_dir_char(#[trigger] r[i]),
        r[0] != '-',
        r.last() != '-',
    ensures
        profile_dir_name(r) == r,
{
    assert(profile_chars(r) =~= r) by {
        assert forall|i: int| 0 <= i < r.len() implies #[trigger] profile_chars(r)[i] == r[i] by {
            assert(is_dir_char(r[i]));
        }
    }
    assert(dash_prefix_len(r) == 0);
    let t = r.subrange(0, r.len() as int);
    assert(t =~= r);
    assert(dash_suffix_len(t) == 0);
    assert(trim_dashes(r) =~= r);
}

/// A profile directory name is never empty, holds only lowercase ASCII
/// letters, digits, `-` and `_`, neither starts nor ends with `-`, and is
/// left as it is when sanitised again.
pub proof fn lemma_profile_dir_name_clean(value: Seq<char>)
    ensures
        profile_dir_name(value).len() > 0,
        forall|i: int| 0 <= i < profile_dir_name(value).len() ==> is_dir_char(#[trigger] profile_dir_name(value)[i]),
        profile_dir_name(value)[0] != '-',
        profile_dir_name(value).last() != '-',
        profile_dir_name(profile_dir_name(value)) == profile_dir_name(value),
{
    let p = profile_chars(value);
    assert forall|i: int| 0 <= i < p.len() implies is_dir_char(#[trigger] p[i]) by {
        assert(p[i] == profile_char(value[i]));
    }
    let a = dash_prefix_len(p);
    lemma_dash_prefix_facts(p);
    let t = p.subrange(a as int, p.len() as int);
    lemma_dash_suffix_facts(t);
    let u = t.subrange(0, t.len() - dash_suffix_len(t));
    assert(trim_dashes(p) == u);
    let r = profile_dir_name(value);
    if u.len() == 0 {
        reveal_strlit("openclaw");
        assert(r == "openclaw"@);
        assert forall|i: int| 0 <= i < r.len() implies is_dir_char(#[trigger] r[i]) by {
            assert(crate::text::is_ascii_lower(r[i]));
        }
    } else {
        assert(r == u);
        assert forall|i: int| 0 <= i < r.len() implies is_dir_char(#[trigger] r[i]) by {
            assert(r[i] == p[a + i]);
        }
        assert(u[0] == t[0]);
        assert(t[0] == p[a as int]);
        assert(u.last() == t[t.len() - dash_suffix_len(t) - 1]);
    }
    lemma_clean_name_fixed(r);
}
} // verus!
