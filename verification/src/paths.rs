//! Paths inside the workspace: a path is handled as the list of its
//! components, normalised without touching the disk, and a tool may only
//! reach paths under the workspace root.

use vstd::prelude::*;
use crate::text::{chars_of, string_of, owned, push_all, str_eq, trimmed_present};

verus! {

/// A component of a path (`std::path::Component`).
#[derive(Debug, Clone)]
pub enum PathPart {
    /// A Windows prefix such as `C:`, as written.
    Prefix(String),
    /// The root directory.
    RootDir,
    /// `.`.
    CurDir,
    /// `..`.
    ParentDir,
    /// A name.
    Normal(String),
}

/// Whether two components are the same.
pub open spec fn same_part(a: PathPart, b: PathPart) -> bool {
    match (a, b) {
        (PathPart::Prefix(x), PathPart::Prefix(y)) => x@ == y@,
        (PathPart::RootDir, PathPart::RootDir) => true,
        (PathPart::CurDir, PathPart::CurDir) => true,
        (PathPart::ParentDir, PathPart::ParentDir) => true,
        (PathPart::Normal(x), PathPart::Normal(y)) => x@ == y@,
        _ => false,
    }
}

/// The components of a path with `.` dropped and each `..` removing the
/// component before it (whatever it is), left to right.
pub open spec fn lexically_normalized(parts: Seq<PathPart>) -> Seq<PathPart>
    decreases parts.len(),
{
    if parts.len() == 0 {
        Seq::empty()
    } else {
        let prev = lexically_normalized(parts.drop_last());
        match parts.last() {
            PathPart::CurDir => prev,
            PathPart::ParentDir => if prev.len() > 0 {
                prev.drop_last()
            } else {
                prev
            },
            p => prev.push(p),
        }
    }
}

fn copy_part(p: &PathPart) -> (r: PathPart)
    ensures
        same_part(r, *p),
        r == *p,
{
    match p {
        PathPart::Prefix(s) => PathPart::Prefix(s.clone()),
        PathPart::RootDir => PathPart::RootDir,
        PathPart::CurDir => PathPart::CurDir,
        PathPart::ParentDir => PathPart::ParentDir,
        PathPart::Normal(s) => PathPart::Normal(s.clone()),
    }
}

/// Normalises a path without the disk (see `lexically_normalized`).
pub fn normalize_lexical_path(parts: &Vec<PathPart>) -> (r: Vec<PathPart>)
    ensures
        r@ == lexically_normalized(parts@),
{
    let mut out: Vec<PathPart> = Vec::new();
    let mut i: usize = 0;
    while i < parts.len()
        invariant
            i <= parts.len(),
            out@ == lexically_normalized(parts@.take(i as int)),
        decreases parts.len() - i,
    {
        proof {
            assert(parts@.take(i + 1).drop_last() =~= parts@.take(i as int));
            assert(parts@.take(i + 1).last() == parts@[i as int]);
        }
        match &parts[i] {
            PathPart::CurDir => {},
            PathPart::ParentDir => {
                if out.len() > 0 {
                    let ghost before = out@;
                    out.pop();
                    assert(out@ =~= before.drop_last());
                }
            },
            p => {
                out.push(copy_part(p));
            },
        }
        i += 1;
    }
    assert(parts@.take(parts.len() as int) =~= parts@);
    out
}

/// Whether a path lies under a base (`Path::starts_with`): the base's
/// components begin the path's.
pub open spec fn path_under(path: Seq<PathPart>, base: Seq<PathPart>) -> bool {
    base.len() <= path.len() && forall|i: int| 0 <= i < base.len() ==> same_part(#[trigger] path[i], base[i])
}

fn parts_equal(a: &PathPart, b: &PathPart) -> (r: bool)
    ensures
        r == same_part(*a, *b),
{
    match (a, b) {
        (PathPart::Prefix(x), PathPart::Prefix(y)) => str_eq(x.as_str(), y.as_str()),
        (PathPart::RootDir, PathPart::RootDir) => true,
        (PathPart::CurDir, PathPart::CurDir) => true,
        (PathPart::ParentDir, PathPart::ParentDir) => true,
        (PathPart::Normal(x), PathPart::Normal(y)) => str_eq(x.as_str(), y.as_str()),
        _ => false,
    }
}

/// Whether a path lies under a base (see `path_under`).
pub fn path_starts_with(path: &Vec<PathPart>, base: &Vec<PathPart>) -> (r: bool)
    ensures
        r == path_under(path@, base@),
{
    if base.len() > path.len() {
        return false;
    }
    let mut i: usize = 0;
    while i < base.len()
        invariant
            i <= base.len(),
            base.len() <= path.len(),
            forall|j: int| 0 <= j < i ==> same_part(#[trigger] path@[j], base@[j]),
        decreases base.len() - i,
    {
        if !parts_equal(&path[i], &base[i]) {
            return false;
        }
        i += 1;
    }
    true
}

/// `Path::join`: an absolute path replaces the base; any other is added
/// after it.
pub open spec fn joined_path(base: Seq<PathPart>, candidate: Seq<PathPart>, candidate_is_absolute: bool) -> Seq<PathPart> {
    if candidate_is_absolute {
        candidate
    } else {
        base + candidate
    }
}

fn join_parts(base: &Vec<PathPart>, candidate: &Vec<PathPart>, candidate_is_absolute: bool) -> (r: Vec<PathPart>)
    ensures
        r@ == joined_path(base@, candidate@, candidate_is_absolute),
{
    let mut out: Vec<PathPart> = Vec::new();
    if !candidate_is_absolute {
        let mut i: usize = 0;
        while i < base.len()
            invariant
                i <= base.len(),
                out@ == base@.take(i as int),
            decreases base.len() - i,
        {
            out.push(copy_part(&base[i]));
            i += 1;
            assert(out@ =~= base@.take(i as int));
        }
        assert(base@.take(base.len() as int) =~= base@);
    }
    let ghost start = out@;
    let mut k: usize = 0;
    while k < candidate.len()
        invariant
            k <= candidate.len(),
            out@ == start + candidate@.take(k as int),
        decreases candidate.len() - k,
    {
        out.push(copy_part(&candidate[k]));
        k += 1;
        assert(out@ =~= start + candidate@.take(k as int));
    }
    assert(candidate@.take(candidate.len() as int) =~= candidate@);
    assert(out@ =~= joined_path(base@, candidate@, candidate_is_absolute));
    out
}

pub open spec fn outside_workspace_message() -> Seq<char> {
    "Path is outside workspace root"@
}

/// Where a tool's path leads, and whether it may go there.
/// `canonical_root` is the workspace root with links resolved; the raw
/// path is `candidate` (absolute or not); `existing` is the requested path
/// with links resolved when it exists on disk, and `requested_display` how
/// it is shown. An existing path must lie under the root; a missing one is
/// an error unless `allow_missing`, and is then normalised without the
/// disk and must lie under the root.
pub open spec fn workspace_target(
    canonical_root: Seq<PathPart>,
    candidate: Seq<PathPart>,
    candidate_is_absolute: bool,
    existing: Option<Seq<PathPart>>,
    allow_missing: bool,
    requested_display: Seq<char>,
) -> Result<Seq<PathPart>, Seq<char>> {
    match existing {
        Some(canonical) => if path_under(canonical, canonical_root) {
            Ok(canonical)
        } else {
            Err(outside_workspace_message())
        },
        None => if !allow_missing {
            Err("Path does not exist: "@ + requested_display)
        } else {
            let normalized = lexically_normalized(joined_path(canonical_root, candidate, candidate_is_absolute));
            if path_under(normalized, canonical_root) {
                Ok(normalized)
            } else {
                Err(outside_workspace_message())
            }
        },
    }
}

/// The path a tool may work on (see `workspace_target`).
pub fn resolve_workspace_target(
    canonical_root: &Vec<PathPart>,
    candidate: &Vec<PathPart>,
    candidate_is_absolute: bool,
    existing: Option<Vec<PathPart>>,
    allow_missing: bool,
    requested_display: &str,
) -> (r: Result<Vec<PathPart>, String>)
    ensures
        match workspace_target(canonical_root@, candidate@, candidate_is_absolute, match existing {
            Some(e) => Some(e@),
            None => None,
        }, allow_missing, requested_display@) {
            Ok(p) => r matches Ok(v) && v@ == p,
            Err(e) => r matches Err(m) && m@ == e,
        },
{
    match existing {
        Some(canonical) => {
            if path_starts_with(&canonical, canonical_root) {
                Ok(canonical)
            } else {
                Err(owned("Path is outside workspace root"))
            }
        },
        None => {
            if !allow_missing {
                let mut msg = chars_of("Path does not exist: ");
                let d = chars_of(requested_display);
                push_all(&mut msg, d.as_slice());
                return Err(string_of(msg.as_slice()));
            }
            let requested = join_parts(canonical_root, candidate, candidate_is_absolute);
            let normalized = normalize_lexical_path(&requested);
            if path_starts_with(&normalized, canonical_root) {
                Ok(normalized)
            } else {
                Err(owned("Path is outside workspace root"))
            }
        },
    }
}

/// Whatever path a tool asks for, the one it is given lies under the
/// workspace root.
pub proof fn lemma_workspace_target_inside(
    canonical_root: Seq<PathPart>,
    candidate: Seq<PathPart>,
    candidate_is_absolute: bool,
    existing: Option<Seq<PathPart>>,
    allow_missing: bool,
    requested_display: Seq<char>,
)
    ensures
        workspace_target(canonical_root, candidate, candidate_is_absolute, existing, allow_missing, requested_display)
            matches Ok(p) ==> path_under(p, canonical_root),
{
}

/// Whether a component is a name, a prefix or the root (not `.` or `..`).
pub open spec fn is_plain_part(p: PathPart) -> bool {
    !(p is CurDir) && !(p is ParentDir)
}

/// A normalised path holds neither `.` nor `..`.
pub proof fn lemma_normalized_is_plain(parts: Seq<PathPart>)
    ensures
        forall|i: int| 0 <= i < lexically_normalized(parts).len() ==> is_plain_part(#[trigger] lexically_normalized(parts)[i]),
    decreases parts.len(),
{
    if parts.len() > 0 {
        lemma_normalized_is_plain(parts.drop_last());
        let prev = lexically_normalized(parts.drop_last());
        assert forall|i: int| 0 <= i < lexically_normalized(parts).len() implies is_plain_part(#[trigger] lexically_normalized(parts)[i]) by {
            if i < prev.len() {
                assert(lexically_normalized(parts)[i] == prev[i]);
            }
        }
    }
}

proof fn lemma_plain_path_is_normal(parts: Seq<PathPart>)
    requires
        forall|i: int| 0 <= i < parts.len() ==> is_plain_part(#[trigger] parts[i]),
    ensures
        lexically_normalized(parts) == parts,
    decreases parts.len(),
{
    if parts.len() > 0 {
        lemma_plain_path_is_normal(parts.drop_last());
        assert(is_plain_part(parts[parts.len() - 1]));
        assert(parts.drop_last().push(parts.last()) =~= parts);
    }
}

/// Normalising a normalised path changes nothing.
pub proof fn lemma_normalize_idempotent(parts: Seq<PathPart>)
    ensures
        lexically_normalized(lexically_normalized(parts)) == lexically_normalized(parts),
{
    lemma_normalized_is_plain(parts);
    lemma_plain_path_is_normal(lexically_normalized(parts));
}

pub open spec fn workspace_not_set_message() -> Seq<char> {
    "Workspace directory is not set. Please choose one in 新冒险 or set default Work Directory in Settings."@
}

/// The workspace directory a turn uses: the override (trimmed, unless
/// blank), else the configured work directory (likewise); one is needed.
pub fn configured_workspace_dir(work_directory: &Option<String>, workspace_override: &Option<String>) -> (r: Result<String, String>)
    ensures
        match trimmed_present(*workspace_override) {
            Some(o) => r matches Ok(d) && d@ == o,
            None => match trimmed_present(*work_directory) {
                Some(w) => r matches Ok(d) && d@ == w,
                None => r matches Err(e) && e@ == workspace_not_set_message(),
            },
        },
{
    if let Some(o) = crate::text::trim_present(workspace_override) {
        return Ok(o);
    }
    if let Some(w) = crate::text::trim_present(work_directory) {
        return Ok(w);
    }
    Err(owned("Workspace directory is not set. Please choose one in 新冒险 or set default Work Directory in Settings."))
}

/// The workspace directory must be an existing directory.
pub fn check_workspace_dir(path: &str, is_directory: bool) -> (r: Result<(), String>)
    ensures
        is_directory ==> r is Ok,
        !is_directory ==> (r matches Err(e) && e@ == "Configured work_directory does not exist or is not a directory: "@ + path@),
{
    if is_directory {
        return Ok(());
    }
    let mut msg = chars_of("Configured work_directory does not exist or is not a directory: ");
    let p = chars_of(path);
    push_all(&mut msg, p.as_slice());
    Err(string_of(msg.as_slice()))
}

} // verus!
