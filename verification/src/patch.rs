//! The patch format of the `apply_patch` tool: parsing a patch envelope into
//! file operations, and applying update hunks to the text of a file.
//!
//! A file's text is seen as its lines (`str::lines`). A hunk is a list of
//! lines each starting with ` ` (context), `-` (removed) or `+` (added); its
//! old side is the context and removed lines, its new side the context and
//! added lines. Each hunk's old side is searched from the end of the previous
//! replacement, then from the start of the file, and replaced by its new side.

use vstd::prelude::*;
use crate::text::{
    chars_of, chars_eq, string_of, owned, push_all, lines_of, lines_seq, join_seq, join_chars,
    views, string_views, chars_of_each, slice_chars, copy_chars, starts_with, trim_seq, trim_chars, chars_starts_with, lines_state, strip_cr,
};

verus! {

/// Whether `n` occurs in `h` at position `i`.
pub open spec fn lines_match_at(h: Seq<Seq<char>>, n: Seq<Seq<char>>, i: int) -> bool {
    0 <= i && i + n.len() <= h.len() && h.subrange(i, i + n.len()) == n
}

/// The first position at or after `start` where `n` occurs in `h`.
pub open spec fn first_match(h: Seq<Seq<char>>, n: Seq<Seq<char>>, start: nat) -> Option<nat>
    decreases h.len() + 1 - start,
{
    if start + n.len() > h.len() {
        None
    } else if lines_match_at(h, n, start as int) {
        Some(start)
    } else {
        first_match(h, n, start + 1)
    }
}

/// What `find_subsequence` returns: for an empty needle the start position
/// (at most the length of the haystack), else the first occurrence at or
/// after `start`.
pub open spec fn find_lines_spec(h: Seq<Seq<char>>, n: Seq<Seq<char>>, start: nat) -> Option<nat> {
    if n.len() == 0 {
        Some(if start <= h.len() { start } else { h.len() })
    } else if h.len() < n.len() {
        None
    } else {
        first_match(h, n, start)
    }
}

/// A found position is an occurrence, and no earlier one exists from `start` on.
pub proof fn lemma_first_match(h: Seq<Seq<char>>, n: Seq<Seq<char>>, start: nat)
    ensures
        first_match(h, n, start) matches Some(p) ==> start <= p && lines_match_at(h, n, p as int)
            && forall|q: int| start <= q < p ==> !lines_match_at(h, n, q),
        first_match(h, n, start) is None ==> forall|q: int| start <= q ==> !lines_match_at(h, n, q),
    decreases h.len() + 1 - start,
{
    if start + n.len() > h.len() {
    } else if lines_match_at(h, n, start as int) {
    } else {
        lemma_first_match(h, n, start + 1);
    }
}

/// Whether `n` occurs in `h` at `i`, comparing line by line.
fn lines_match_exec(h: &Vec<Vec<char>>, n: &Vec<Vec<char>>, i: usize) -> (r: bool)
    requires
        i + n.len() <= h.len(),
    ensures
        r == lines_match_at(views(h@), views(n@), i as int),
{
    let mut k: usize = 0;
    while k < n.len()
        invariant
            i + n.len() <= h.len(),
            k <= n.len(),
            forall|j: int| 0 <= j < k ==> h@[i + j]@ == n@[j]@,
        decreases n.len() - k,
    {
        if !chars_eq(h[i + k].as_slice(), n[k].as_slice()) {
            assert(views(h@).subrange(i as int, i + n.len())[k as int] != views(n@)[k as int]);
            return false;
        }
        k += 1;
    }
    assert(views(h@).subrange(i as int, i + n.len()) =~= views(n@));
    true
}

/// The first occurrence of the lines `n` in `h` at or after `start`.
fn find_lines(h: &Vec<Vec<char>>, n: &Vec<Vec<char>>, start: usize) -> (r: Option<usize>)
    ensures
        r matches Some(p) ==> find_lines_spec(views(h@), views(n@), start as nat) == Some(p as nat),
        r is None ==> find_lines_spec(views(h@), views(n@), start as nat) is None,
{
    if n.len() == 0 {
        return Some(if start <= h.len() { start } else { h.len() });
    }
    if h.len() < n.len() {
        return None;
    }
    let ghost hv = views(h@);
    let ghost nv = views(n@);
    let last = h.len() - n.len();
    let mut i: usize = start;
    while i <= last
        invariant
            last == h.len() - n.len(),
            0 < n.len() <= h.len(),
            start <= i,
            hv == views(h@),
            nv == views(n@),
            first_match(hv, nv, start as nat) == first_match(hv, nv, i as nat),
        decreases last + 1 - i,
    {
        if lines_match_exec(h, n, i) {
            return Some(i);
        }
        i += 1;
    }
    None
}

/// The first position at or after `start_index` where `needle` occurs in
/// `haystack` as a run of consecutive lines; an empty needle is found at
/// `start_index`, or at the end when `start_index` lies beyond it.
pub fn find_subsequence(haystack: &[String], needle: &[String], start_index: usize) -> (r: Option<usize>)
    ensures
        r matches Some(p) ==> find_lines_spec(string_views(haystack@), string_views(needle@), start_index as nat) == Some(p as nat),
        r is None ==> find_lines_spec(string_views(haystack@), string_views(needle@), start_index as nat) is None,
{
    let h = chars_of_each(haystack);
    let n = chars_of_each(needle);
    find_lines(&h, &n, start_index)
}

/// The lines of a hunk that belong to its old side (` ` and `-`), without
/// their first character.
pub open spec fn old_side(h: Seq<Seq<char>>) -> Seq<Seq<char>>
    decreases h.len(),
{
    if h.len() == 0 {
        Seq::empty()
    } else {
        let rest = old_side(h.drop_last());
        let l = h.last();
        if l.len() > 0 && (l[0] == ' ' || l[0] == '-') {
            rest.push(l.drop_first())
        } else {
            rest
        }
    }
}

/// The lines of a hunk that belong to its new side (` ` and `+`), without
/// their first character.
pub open spec fn new_side(h: Seq<Seq<char>>) -> Seq<Seq<char>>
    decreases h.len(),
{
    if h.len() == 0 {
        Seq::empty()
    } else {
        let rest = new_side(h.drop_last());
        let l = h.last();
        if l.len() > 0 && (l[0] == ' ' || l[0] == '+') {
            rest.push(l.drop_first())
        } else {
            rest
        }
    }
}

/// `ls` with `old_len` lines at `p` replaced by `new`.
pub open spec fn splice_lines(ls: Seq<Seq<char>>, p: int, old_len: int, new: Seq<Seq<char>>) -> Seq<Seq<char>> {
    ls.subrange(0, p) + new + ls.subrange(p + old_len, ls.len() as int)
}

/// Where a hunk's old side is replaced: searched from the cursor, then
/// from the start.
pub open spec fn hunk_position(ls: Seq<Seq<char>>, old: Seq<Seq<char>>, cursor: nat) -> Option<nat> {
    match find_lines_spec(ls, old, cursor) {
        Some(p) => Some(p),
        None => find_lines_spec(ls, old, 0),
    }
}

/// Where a hunk lands. When its old side occurs at or after the cursor (the
/// end of the previous replacement), it lands on the first such occurrence;
/// only when it occurs nowhere from the cursor on does it land on its first
/// occurrence in the file, and when it occurs nowhere it is not found. An
/// empty old side lands at the cursor, or at the end of the file when the
/// cursor lies beyond it.
pub proof fn lemma_hunk_lands_after_cursor(ls: Seq<Seq<char>>, old: Seq<Seq<char>>, cursor: nat)
    ensures
        old.len() == 0 ==> hunk_position(ls, old, cursor) == Some(
            if cursor <= ls.len() { cursor } else { ls.len() },
        ),
        old.len() > 0 && (exists|q: int| cursor <= q && #[trigger] lines_match_at(ls, old, q))
            ==> (hunk_position(ls, old, cursor) matches Some(p) && cursor <= p
                && lines_match_at(ls, old, p as int)
                && forall|q: int| cursor <= q < p ==> !lines_match_at(ls, old, q)),
        old.len() > 0 && (forall|q: int| cursor <= q ==> !#[trigger] lines_match_at(ls, old, q))
            ==> match hunk_position(ls, old, cursor) {
                Some(p) => lines_match_at(ls, old, p as int)
                    && forall|q: int| 0 <= q < p ==> !lines_match_at(ls, old, q),
                None => forall|q: int| 0 <= q ==> !lines_match_at(ls, old, q),
            },
{
    lemma_first_match(ls, old, cursor);
    lemma_first_match(ls, old, 0);
}

/// The lines after applying `hunks` in order, or `None` when the old side
/// of one of them cannot be found.
pub open spec fn apply_hunks_from(ls: Seq<Seq<char>>, cursor: nat, hunks: Seq<Seq<Seq<char>>>) -> Option<Seq<Seq<char>>>
    decreases hunks.len(),
{
    if hunks.len() == 0 {
        Some(ls)
    } else {
        let old = old_side(hunks[0]);
        let new = new_side(hunks[0]);
        match hunk_position(ls, old, cursor) {
            None => None,
            Some(p) => apply_hunks_from(
                splice_lines(ls, p as int, old.len() as int, new),
                p + new.len(),
                hunks.drop_first(),
            ),
        }
    }
}

pub open spec fn hunk_views(hs: Seq<Vec<String>>) -> Seq<Seq<Seq<char>>> {
    hs.map_values(|h: Vec<String>| string_views(h@))
}

/// Every hunk line has a first character.
pub open spec fn hunk_lines_nonempty(hs: Seq<Seq<Seq<char>>>) -> bool {
    forall|i: int, j: int| 0 <= i < hs.len() && 0 <= j < hs[i].len() ==> #[trigger] hs[i][j].len() > 0
}

pub open spec fn hunk_not_found_message() -> Seq<char> {
    "Failed to locate hunk context in file"@
}

/// The text of a file after its update hunks: the patched lines joined by
/// `\n`, with a final `\n` when the original text ended with one.
pub open spec fn patched_text(content: Seq<char>, hunks: Seq<Seq<Seq<char>>>) -> Option<Seq<char>> {
    match apply_hunks_from(lines_seq(content), 0, hunks) {
        Some(ls) => Some(join_seq(ls, "\n"@) + if content.len() > 0 && content.last() == '\n' {
            "\n"@
        } else {
            Seq::<char>::empty()
        }),
        None => None,
    }
}

/// The old and new sides of a hunk.
fn hunk_sides(hunk: &Vec<String>) -> (r: (Vec<Vec<char>>, Vec<Vec<char>>))
    requires
        forall|j: int| 0 <= j < hunk@.len() ==> #[trigger] hunk@[j]@.len() > 0,
    ensures
        views(r.0@) == old_side(string_views(hunk@)),
        views(r.1@) == new_side(string_views(hunk@)),
{
    let ghost hv = string_views(hunk@);
    let mut old: Vec<Vec<char>> = Vec::new();
    let mut new: Vec<Vec<char>> = Vec::new();
    let mut i: usize = 0;
    while i < hunk.len()
        invariant
            i <= hunk.len(),
            hv == string_views(hunk@),
            forall|j: int| 0 <= j < hunk@.len() ==> #[trigger] hunk@[j]@.len() > 0,
            views(old@) == old_side(hv.take(i as int)),
            views(new@) == new_side(hv.take(i as int)),
        decreases hunk.len() - i,
    {
        let line = chars_of(hunk[i].as_str());
        assert(line@ == hv[i as int]);
        assert(line@.len() > 0);
        let first = line[0];
        let rest = slice_chars(line.as_slice(), 1, line.len());
        proof {
            assert(hv.take(i + 1).drop_last() =~= hv.take(i as int));
            assert(hv.take(i + 1).last() == line@);
            assert(rest@ =~= line@.drop_first());
        }
        if first == ' ' || first == '-' {
            let ghost before = old@;
            old.push(copy_chars(&rest));
            assert(views(old@) =~= views(before).push(rest@));
        }
        if first == ' ' || first == '+' {
            let ghost before = new@;
            new.push(rest);
            assert(views(new@) =~= views(before).push(line@.drop_first()));
        }
        i += 1;
    }
    assert(hv.take(hunk.len() as int) =~= hv);
    (old, new)
}

/// `ls[..p] + new + ls[p + old_len..]`.
fn splice_exec(ls: &Vec<Vec<char>>, p: usize, old_len: usize, new: &Vec<Vec<char>>) -> (r: Vec<Vec<char>>)
    requires
        p + old_len <= ls.len(),
    ensures
        views(r@) == splice_lines(views(ls@), p as int, old_len as int, views(new@)),
{
    let mut out: Vec<Vec<char>> = Vec::new();
    let mut i: usize = 0;
    while i < p
        invariant
            i <= p,
            p + old_len <= ls.len(),
            views(out@) =~= views(ls@).subrange(0, i as int),
        decreases p - i,
    {
        let ghost before = out@;
        out.push(copy_chars(&ls[i]));
        assert(views(out@) =~= views(before).push(ls@[i as int]@));
        i += 1;
    }
    let mut k: usize = 0;
    while k < new.len()
        invariant
            k <= new.len(),
            p + old_len <= ls.len(),
            views(out@) =~= views(ls@).subrange(0, p as int) + views(new@).take(k as int),
        decreases new.len() - k,
    {
        let ghost before = out@;
        out.push(copy_chars(&new[k]));
        assert(views(out@) =~= views(before).push(new@[k as int]@));
        k += 1;
    }
    assert(views(new@).take(new.len() as int) =~= views(new@));
    let mut j: usize = p + old_len;
    while j < ls.len()
        invariant
            p + old_len <= j <= ls.len(),
            views(out@) =~= views(ls@).subrange(0, p as int) + views(new@) + views(ls@).subrange(
                p + old_len,
                j as int,
            ),
        decreases ls.len() - j,
    {
        let ghost before = out@;
        out.push(copy_chars(&ls[j]));
        assert(views(out@) =~= views(before).push(ls@[j as int]@));
        j += 1;
    }
    out
}

proof fn lemma_found_position(ls: Seq<Seq<char>>, old: Seq<Seq<char>>, cursor: nat)
    requires
        cursor <= ls.len(),
    ensures
        hunk_position(ls, old, cursor) matches Some(p) ==> p + old.len() <= ls.len(),
{
    lemma_first_match(ls, old, cursor);
    lemma_first_match(ls, old, 0);
}

/// Applies update hunks to the text of a file (see the module comment).
/// Fails when the old side of a hunk cannot be found.
pub fn apply_hunks_to_content(content: &str, hunks: &[Vec<String>]) -> (r: Result<String, String>)
    requires
        hunk_lines_nonempty(hunk_views(hunks@)),
    ensures
        match patched_text(content@, hunk_views(hunks@)) {
            Some(t) => r matches Ok(s) && s@ == t,
            None => r matches Err(e) && e@ == hunk_not_found_message(),
        },
{
    let cs = chars_of(content);
    let had_trailing_newline = cs.len() > 0 && cs[cs.len() - 1] == '\n';
    let mut lines = lines_of(cs.as_slice());
    assert(views(lines@) =~= lines_seq(content@));
    let ghost hv = hunk_views(hunks@);
    let mut cursor: usize = 0;
    let mut k: usize = 0;
    assert(hv.skip(0) =~= hv);
    while k < hunks.len()
        invariant
            k <= hunks.len(),
            hv == hunk_views(hunks@),
            hunk_lines_nonempty(hv),
            cursor <= lines.len(),
            apply_hunks_from(lines_seq(content@), 0, hv) == apply_hunks_from(views(lines@), cursor as nat, hv.skip(k as int)),
        decreases hunks.len() - k,
    {
        assert forall|j: int| 0 <= j < hunks@[k as int]@.len() implies #[trigger] hunks@[k as int]@[j]@.len() > 0 by {
            assert(hv[k as int][j] == hunks@[k as int]@[j]@);
        }
        let (old, new) = hunk_sides(&hunks[k]);
        let ghost rest = hv.skip(k as int);
        assert(rest[0] == string_views(hunks@[k as int]@));
        assert(rest.drop_first() =~= hv.skip(k + 1));
        proof {
            lemma_found_position(views(lines@), views(old@), cursor as nat);
        }
        let found = match find_lines(&lines, &old, cursor) {
            Some(p) => Some(p),
            None => find_lines(&lines, &old, 0),
        };
        match found {
            None => {
                return Err(owned("Failed to locate hunk context in file"));
            },
            Some(p) => {
                let next = splice_exec(&lines, p, old.len(), &new);
                assert(views(next@).len() == next@.len());
                assert(views(new@).len() == new@.len());
                assert(views(lines@).len() == lines@.len());
                assert(splice_lines(views(lines@), p as int, old.len() as int, views(new@)).len()
                    == p + new.len() + (lines.len() - (p + old.len())));
                assert(p + new.len() <= next.len());
                lines = next;
                cursor = p + new.len();
            },
        }
        k += 1;
    }
    assert(hv.skip(hunks.len() as int) =~= Seq::<Seq<Seq<char>>>::empty());
    let nl = chars_of("\n");
    let mut out = join_chars(&lines, nl.as_slice());
    if had_trailing_newline {
        push_all(&mut out, nl.as_slice());
    }
    proof {
        if had_trailing_newline {
            assert(out@ =~= join_seq(views(lines@), "\n"@) + "\n"@);
        } else {
            assert(out@ =~= join_seq(views(lines@), "\n"@) + Seq::<char>::empty());
        }
    }
    Ok(string_of(out.as_slice()))
}

/// One file operation of a patch.
#[derive(Debug)]
pub enum PatchOperation {
    Add { path: String, lines: Vec<String> },
    Delete { path: String },
    Update { path: String, move_to: Option<String>, hunks: Vec<Vec<String>> },
}

/// A file operation seen through the text it holds.
pub enum PatchOpModel {
    Add { path: Seq<char>, lines: Seq<Seq<char>> },
    Delete { path: Seq<char> },
    Update { path: Seq<char>, move_to: Option<Seq<char>>, hunks: Seq<Seq<Seq<char>>> },
}

pub open spec fn opt_str_view(o: Option<String>) -> Option<Seq<char>> {
    match o {
        Some(s) => Some(s@),
        None => None,
    }
}

pub open spec fn op_model(op: PatchOperation) -> PatchOpModel {
    match op {
        PatchOperation::Add { path, lines } => PatchOpModel::Add { path: path@, lines: string_views(lines@) },
        PatchOperation::Delete { path } => PatchOpModel::Delete { path: path@ },
        PatchOperation::Update { path, move_to, hunks } => PatchOpModel::Update {
            path: path@,
            move_to: opt_str_view(move_to),
            hunks: hunk_views(hunks@),
        },
    }
}

pub open spec fn op_models(ops: Seq<PatchOperation>) -> Seq<PatchOpModel> {
    ops.map_values(|op: PatchOperation| op_model(op))
}

/// Whether `line` begins a new section of the envelope.
pub open spec fn is_marker(line: Seq<char>) -> bool {
    starts_with(line, "*** "@)
}

/// The lines of an added file, from line `i` up to the next marker.
pub open spec fn add_body(ls: Seq<Seq<char>>, i: nat) -> Result<(Seq<Seq<char>>, nat), Seq<char>>
    decreases ls.len() - i,
{
    if i >= ls.len() || is_marker(ls[i as int]) {
        Ok((Seq::empty(), i))
    } else if !starts_with(ls[i as int], "+"@) {
        Err("Add file operation expects '+' lines, found: "@ + ls[i as int])
    } else {
        match add_body(ls, i + 1) {
            Ok((rest, j)) => Ok((seq![ls[i as int].drop_first()] + rest, j)),
            Err(e) => Err(e),
        }
    }
}

/// The first character of a hunk line, a space for an empty line.
pub open spec fn hunk_prefix(line: Seq<char>) -> char {
    if line.len() > 0 { line[0] } else { ' ' }
}

/// The lines of one hunk, from line `i` up to the next `@@` or marker.
pub open spec fn hunk_body(ls: Seq<Seq<char>>, i: nat) -> Result<(Seq<Seq<char>>, nat), Seq<char>>
    decreases ls.len() - i,
{
    if i >= ls.len() || starts_with(ls[i as int], "@@"@) || is_marker(ls[i as int]) {
        Ok((Seq::empty(), i))
    } else if !(hunk_prefix(ls[i as int]) == ' ' || hunk_prefix(ls[i as int]) == '+' || hunk_prefix(ls[i as int]) == '-') {
        Err("Invalid hunk line prefix: "@ + ls[i as int])
    } else {
        match hunk_body(ls, i + 1) {
            Ok((rest, j)) => Ok((seq![ls[i as int]] + rest, j)),
            Err(e) => Err(e),
        }
    }
}

pub proof fn lemma_hunk_body_index(ls: Seq<Seq<char>>, i: nat)
    ensures
        i <= ls.len() ==> (hunk_body(ls, i) matches Ok((_, j)) ==> i <= j <= ls.len()),
    decreases ls.len() - i,
{
    if !(i >= ls.len() || starts_with(ls[i as int], "@@"@) || is_marker(ls[i as int])) {
        lemma_hunk_body_index(ls, i + 1);
    }
}

pub proof fn lemma_add_body_index(ls: Seq<Seq<char>>, i: nat)
    ensures
        i <= ls.len() ==> (add_body(ls, i) matches Ok((_, j)) ==> i <= j <= ls.len()),
    decreases ls.len() - i,
{
    if !(i >= ls.len() || is_marker(ls[i as int])) {
        lemma_add_body_index(ls, i + 1);
    }
}

/// The hunks of an updated file, from line `i` up to the next marker.
pub open spec fn hunks_body(ls: Seq<Seq<char>>, i: nat) -> Result<(Seq<Seq<Seq<char>>>, nat), Seq<char>>
    decreases ls.len() - i,
{
    if i >= ls.len() || is_marker(ls[i as int]) {
        Ok((Seq::empty(), i))
    } else if !starts_with(ls[i as int], "@@"@) {
        Err("Expected hunk header '@@', got: "@ + ls[i as int])
    } else {
        match hunk_body(ls, i + 1) {
            Ok((h, j)) => {
                proof {
                    lemma_hunk_body_index(ls, i + 1);
                }
                match hunks_body(ls, j) {
                    Ok((hs, k)) => Ok((seq![h] + hs, k)),
                    Err(e) => Err(e),
                }
            },
            Err(e) => Err(e),
        }
    }
}

pub proof fn lemma_hunks_body_index(ls: Seq<Seq<char>>, i: nat)
    ensures
        i <= ls.len() ==> (hunks_body(ls, i) matches Ok((_, j)) ==> i <= j <= ls.len()),
    decreases ls.len() - i,
{
    if !(i >= ls.len() || is_marker(ls[i as int])) && starts_with(ls[i as int], "@@"@) {
        lemma_hunk_body_index(ls, i + 1);
        if let Ok((h, j)) = hunk_body(ls, i + 1) {
            lemma_hunks_body_index(ls, j);
        }
    }
}

pub open spec fn prepend_op(op: PatchOpModel, rest: Result<Seq<PatchOpModel>, Seq<char>>) -> Result<Seq<PatchOpModel>, Seq<char>> {
    match rest {
        Ok(ops) => Ok(seq![op] + ops),
        Err(e) => Err(e),
    }
}

/// The `*** Move to: ` line that may follow an update header at line `i`.
pub open spec fn move_target(ls: Seq<Seq<char>>, i: nat) -> (Option<Seq<char>>, nat) {
    if i < ls.len() && starts_with(ls[i as int], "*** Move to: "@) {
        (Some(trim_seq(ls[i as int].skip("*** Move to: "@.len() as int))), i + 1)
    } else {
        (None, i)
    }
}

/// The operations of a patch from line `i` to the `*** End Patch` line.
pub open spec fn envelope_ops(ls: Seq<Seq<char>>, i: nat) -> Result<Seq<PatchOpModel>, Seq<char>>
    decreases ls.len() - i,
{
    if i >= ls.len() {
        Err("Patch is missing '*** End Patch'"@)
    } else {
        let line = ls[i as int];
        if line == "*** End Patch"@ {
            Ok(Seq::empty())
        } else if starts_with(line, "*** Add File: "@) {
            match add_body(ls, i + 1) {
                Ok((lines, j)) => {
                    proof {
                        lemma_add_body_index(ls, i + 1);
                    }
                    prepend_op(
                        PatchOpModel::Add { path: trim_seq(line.skip("*** Add File: "@.len() as int)), lines },
                        envelope_ops(ls, j),
                    )
                },
                Err(e) => Err(e),
            }
        } else if starts_with(line, "*** Delete File: "@) {
            prepend_op(
                PatchOpModel::Delete { path: trim_seq(line.skip("*** Delete File: "@.len() as int)) },
                envelope_ops(ls, i + 1),
            )
        } else if starts_with(line, "*** Update File: "@) {
            let (move_to, k) = move_target(ls, i + 1);
            match hunks_body(ls, k) {
                Ok((hunks, j)) => {
                    proof {
                        lemma_hunks_body_index(ls, k);
                    }
                    prepend_op(
                        PatchOpModel::Update {
                            path: trim_seq(line.skip("*** Update File: "@.len() as int)),
                            move_to,
                            hunks,
                        },
                        envelope_ops(ls, j),
                    )
                },
                Err(e) => Err(e),
            }
        } else {
            Err("Unknown patch operation: "@ + line)
        }
    }
}

/// What parsing a patch gives: its lines must start with `*** Begin Patch`,
/// then come the operations up to `*** End Patch`.
pub open spec fn parse_patch_spec(patch: Seq<char>) -> Result<Seq<PatchOpModel>, Seq<char>> {
    let ls = lines_seq(patch);
    if ls.len() == 0 || ls[0] != "*** Begin Patch"@ {
        Err("Patch must start with '*** Begin Patch'"@)
    } else {
        envelope_ops(ls, 1)
    }
}

/// Puts `a` in front of the items of a successful scan.
pub open spec fn prepend_all<T>(a: Seq<T>, r: Result<(Seq<T>, nat), Seq<char>>) -> Result<(Seq<T>, nat), Seq<char>> {
    match r {
        Ok((rest, j)) => Ok((a + rest, j)),
        Err(e) => Err(e),
    }
}

proof fn lemma_prepend_all<T>(a: Seq<T>, x: T, r: Result<(Seq<T>, nat), Seq<char>>)
    ensures
        prepend_all(a, prepend_all(seq![x], r)) == prepend_all(a.push(x), r),
{
    if let Ok((rest, j)) = r {
        assert(a + (seq![x] + rest) =~= a.push(x) + rest);
    }
}

pub open spec fn prepend_ops(a: Seq<PatchOpModel>, r: Result<Seq<PatchOpModel>, Seq<char>>) -> Result<Seq<PatchOpModel>, Seq<char>> {
    match r {
        Ok(rest) => Ok(a + rest),
        Err(e) => Err(e),
    }
}

/// `literal` followed by the characters of `line`.
fn message_with(literal: &str, line: &Vec<char>) -> (r: String)
    ensures
        r@ == literal@ + line@,
{
    let mut out = chars_of(literal);
    push_all(&mut out, line.as_slice());
    string_of(out.as_slice())
}

/// The trimmed text of `line` after its first `n` characters.
fn trimmed_suffix(line: &Vec<char>, n: usize) -> (r: String)
    requires
        n <= line.len(),
    ensures
        r@ == trim_seq(line@.skip(n as int)),
{
    let rest = slice_chars(line.as_slice(), n, line.len());
    assert(rest@ =~= line@.skip(n as int));
    let t = trim_chars(rest.as_slice());
    string_of(t.as_slice())
}

fn starts_with_lit(line: &Vec<char>, literal: &str) -> (r: bool)
    ensures
        r == starts_with(line@, literal@),
{
    let p = chars_of(literal);
    chars_starts_with(line.as_slice(), p.as_slice())
}

fn parse_add_body(ls: &Vec<Vec<char>>, start: usize) -> (r: Result<(Vec<String>, usize), String>)
    requires
        start <= ls.len(),
    ensures
        match add_body(views(ls@), start as nat) {
            Ok((lines, j)) => r matches Ok((v, k)) && string_views(v@) == lines && k == j,
            Err(e) => r matches Err(m) && m@ == e,
        },
{
    let ghost lv = views(ls@);
    let mut acc: Vec<String> = Vec::new();
    let mut idx: usize = start;
    while idx < ls.len() && !starts_with_lit(&ls[idx], "*** ")
        invariant
            start <= idx <= ls.len(),
            lv == views(ls@),
            add_body(lv, start as nat) == prepend_all(string_views(acc@), add_body(lv, idx as nat)),
        decreases ls.len() - idx,
    {
        assert(lv[idx as int] == ls@[idx as int]@);
        if !starts_with_lit(&ls[idx], "+") {
            return Err(message_with("Add file operation expects '+' lines, found: ", &ls[idx]));
        }
        let line = &ls[idx];
        proof {
            reveal_strlit("+");
        }
        let rest = slice_chars(line.as_slice(), 1, line.len());
        assert(rest@ =~= lv[idx as int].drop_first());
        proof {
            lemma_prepend_all(string_views(acc@), rest@, add_body(lv, (idx + 1) as nat));
        }
        let ghost before = acc@;
        acc.push(string_of(rest.as_slice()));
        assert(string_views(acc@) =~= string_views(before).push(rest@));
        idx += 1;
    }
    assert(string_views(acc@) + Seq::<Seq<char>>::empty() =~= string_views(acc@));
    Ok((acc, idx))
}

fn parse_hunk_lines(ls: &Vec<Vec<char>>, start: usize) -> (r: Result<(Vec<String>, usize), String>)
    requires
        start <= ls.len(),
    ensures
        match hunk_body(views(ls@), start as nat) {
            Ok((lines, j)) => r matches Ok((v, k)) && string_views(v@) == lines && k == j,
            Err(e) => r matches Err(m) && m@ == e,
        },
{
    let ghost lv = views(ls@);
    let mut acc: Vec<String> = Vec::new();
    let mut idx: usize = start;
    while idx < ls.len() && !starts_with_lit(&ls[idx], "@@") && !starts_with_lit(&ls[idx], "*** ")
        invariant
            start <= idx <= ls.len(),
            lv == views(ls@),
            hunk_body(lv, start as nat) == prepend_all(string_views(acc@), hunk_body(lv, idx as nat)),
        decreases ls.len() - idx,
    {
        let line = &ls[idx];
        assert(lv[idx as int] == line@);
        let prefix = if line.len() > 0 { line[0] } else { ' ' };
        if prefix != ' ' && prefix != '+' && prefix != '-' {
            return Err(message_with("Invalid hunk line prefix: ", line));
        }
        proof {
            lemma_prepend_all(string_views(acc@), line@, hunk_body(lv, (idx + 1) as nat));
        }
        let ghost before = acc@;
        acc.push(string_of(line.as_slice()));
        assert(string_views(acc@) =~= string_views(before).push(line@));
        idx += 1;
    }
    assert(string_views(acc@) + Seq::<Seq<char>>::empty() =~= string_views(acc@));
    Ok((acc, idx))
}

fn parse_hunks(ls: &Vec<Vec<char>>, start: usize) -> (r: Result<(Vec<Vec<String>>, usize), String>)
    requires
        start <= ls.len(),
    ensures
        match hunks_body(views(ls@), start as nat) {
            Ok((hunks, j)) => r matches Ok((v, k)) && hunk_views(v@) == hunks && k == j,
            Err(e) => r matches Err(m) && m@ == e,
        },
{
    let ghost lv = views(ls@);
    let mut acc: Vec<Vec<String>> = Vec::new();
    let mut idx: usize = start;
    while idx < ls.len() && !starts_with_lit(&ls[idx], "*** ")
        invariant
            start <= idx <= ls.len(),
            lv == views(ls@),
            hunks_body(lv, start as nat) == prepend_all(hunk_views(acc@), hunks_body(lv, idx as nat)),
        decreases ls.len() - idx,
    {
        assert(lv[idx as int] == ls@[idx as int]@);
        if !starts_with_lit(&ls[idx], "@@") {
            return Err(message_with("Expected hunk header '@@', got: ", &ls[idx]));
        }
        match parse_hunk_lines(ls, idx + 1) {
            Err(e) => {
                return Err(e);
            },
            Ok((hunk, next)) => {
                proof {
                    lemma_hunk_body_index(lv, (idx + 1) as nat);
                    lemma_prepend_all(hunk_views(acc@), string_views(hunk@), hunks_body(lv, next as nat));
                }
                let ghost before = acc@;
                acc.push(hunk);
                assert(hunk_views(acc@) =~= hunk_views(before).push(string_views(acc@.last()@)));
                idx = next;
            },
        }
    }
    assert(hunk_views(acc@) + Seq::<Seq<Seq<char>>>::empty() =~= hunk_views(acc@));
    Ok((acc, idx))
}

/// Parses a patch envelope: `*** Begin Patch`, then any number of
/// `*** Add File: <path>` (followed by `+` lines), `*** Delete File: <path>`
/// and `*** Update File: <path>` (optionally followed by `*** Move to:
/// <path>`, then `@@` hunks) sections, then `*** End Patch`.
pub fn parse_patch_envelope(patch: &str) -> (r: Result<Vec<PatchOperation>, String>)
    ensures
        match parse_patch_spec(patch@) {
            Ok(ops) => r matches Ok(v) && op_models(v@) == ops,
            Err(e) => r matches Err(m) && m@ == e,
        },
{
    let cs = chars_of(patch);
    let ls = lines_of(cs.as_slice());
    let ghost lv = views(ls@);
    assert(lv =~= lines_seq(patch@));
    if ls.len() == 0 || !chars_eq(ls[0].as_slice(), chars_of("*** Begin Patch").as_slice()) {
        return Err(owned("Patch must start with '*** Begin Patch'"));
    }
    assert(lv[0] == ls@[0]@);
    let end_patch = chars_of("*** End Patch");
    assert(parse_patch_spec(patch@) == envelope_ops(lv, 1));
    let mut operations: Vec<PatchOperation> = Vec::new();
    let mut idx: usize = 1;
    assert(op_models(operations@) + Seq::<PatchOpModel>::empty() =~= Seq::<PatchOpModel>::empty());
    while idx < ls.len()
        invariant
            1 <= idx <= ls.len(),
            lv == views(ls@),
            parse_patch_spec(patch@) == envelope_ops(lv, 1),
            end_patch@ == "*** End Patch"@,
            envelope_ops(lv, 1) == prepend_ops(op_models(operations@), envelope_ops(lv, idx as nat)),
        decreases ls.len() - idx,
    {
        let line = &ls[idx];
        assert(lv[idx as int] == line@);
        proof {
            reveal_strlit("*** Add File: ");
            reveal_strlit("*** Delete File: ");
            reveal_strlit("*** Update File: ");
            reveal_strlit("*** Move to: ");
        }
        if chars_eq(line.as_slice(), end_patch.as_slice()) {
            assert(envelope_ops(lv, idx as nat) == Ok::<Seq<PatchOpModel>, Seq<char>>(Seq::empty()));
            assert(op_models(operations@) + Seq::<PatchOpModel>::empty() =~= op_models(operations@));
            return Ok(operations);
        }
        let ghost before = operations@;
        if starts_with_lit(line, "*** Add File: ") {
            let path = trimmed_suffix(line, 14);
            match parse_add_body(&ls, idx + 1) {
                Err(e) => {
                    return Err(e);
                },
                Ok((lines, next)) => {
                    proof {
                        lemma_add_body_index(lv, (idx + 1) as nat);
                    }
                    let op = PatchOperation::Add { path, lines };
                    operations.push(op);
                    assert(op_models(operations@) =~= op_models(before).push(op_model(operations@.last())));
                    assert(op_models(before) + (seq![op_model(operations@.last())] + Seq::<PatchOpModel>::empty())
                        =~= op_models(operations@) + Seq::<PatchOpModel>::empty());
                    proof {
                        let e = envelope_ops(lv, next as nat);
                        if let Ok(rest) = e {
                            assert(op_models(before) + (seq![op_model(operations@.last())] + rest)
                                =~= op_models(operations@) + rest);
                        }
                    }
                    idx = next;
                },
            }
        } else if starts_with_lit(line, "*** Delete File: ") {
            let path = trimmed_suffix(line, 17);
            let op = PatchOperation::Delete { path };
            operations.push(op);
            assert(op_models(operations@) =~= op_models(before).push(op_model(operations@.last())));
            proof {
                let e = envelope_ops(lv, (idx + 1) as nat);
                if let Ok(rest) = e {
                    assert(op_models(before) + (seq![op_model(operations@.last())] + rest)
                        =~= op_models(operations@) + rest);
                }
            }
            idx += 1;
        } else if starts_with_lit(line, "*** Update File: ") {
            let path = trimmed_suffix(line, 17);
            let mut k: usize = idx + 1;
            let mut move_to: Option<String> = None;
            if k < ls.len() && starts_with_lit(&ls[k], "*** Move to: ") {
                assert(lv[k as int] == ls@[k as int]@);
                move_to = Some(trimmed_suffix(&ls[k], 13));
                k += 1;
            }
            assert(move_target(lv, (idx + 1) as nat) == (opt_str_view(move_to), k as nat));
            match parse_hunks(&ls, k) {
                Err(e) => {
                    return Err(e);
                },
                Ok((hunks, next)) => {
                    proof {
                        lemma_hunks_body_index(lv, k as nat);
                    }
                    let op = PatchOperation::Update { path, move_to, hunks };
                    operations.push(op);
                    assert(op_models(operations@) =~= op_models(before).push(op_model(operations@.last())));
                    proof {
                        let e = envelope_ops(lv, next as nat);
                        if let Ok(rest) = e {
                            assert(op_models(before) + (seq![op_model(operations@.last())] + rest)
                                =~= op_models(operations@) + rest);
                        }
                    }
                    idx = next;
                },
            }
        } else {
            return Err(message_with("Unknown patch operation: ", line));
        }
    }
    Err(owned("Patch is missing '*** End Patch'"))
}

proof fn lemma_join_push_char(xs: Seq<Seq<char>>, y: Seq<char>, c: char)
    ensures
        join_seq(xs.push(y.push(c)), "\n"@) == join_seq(xs.push(y), "\n"@).push(c),
{
    let a = xs.push(y.push(c));
    let b = xs.push(y);
    assert(a.drop_last() =~= xs);
    assert(b.drop_last() =~= xs);
    if xs.len() == 0 {
        assert(a.len() == 1);
        assert(b.len() == 1);
    } else {
        assert(join_seq(a, "\n"@) == join_seq(xs, "\n"@) + "\n"@ + y.push(c));
        assert(join_seq(b, "\n"@) == join_seq(xs, "\n"@) + "\n"@ + y);
        assert(join_seq(xs, "\n"@) + "\n"@ + y.push(c) =~= (join_seq(xs, "\n"@) + "\n"@ + y).push(c));
    }
}

proof fn lemma_lines_state_join(s: Seq<char>)
    requires
        !s.contains('\r'),
    ensures
        join_seq(lines_state(s).0.push(lines_state(s).1), "\n"@) == s,
        s.len() > 0 && s.last() == '\n' ==> lines_state(s).1.len() == 0,
        s.len() > 0 && s.last() != '\n' ==> lines_state(s).1.len() > 0,
        s.len() == 0 ==> lines_state(s).0.len() == 0 && lines_state(s).1.len() == 0,
        s.len() > 0 ==> lines_state(s).0.len() > 0 || lines_state(s).1.len() > 0,
    decreases s.len(),
{
    reveal_strlit("\n");
    if s.len() == 0 {
        assert(join_seq(seq![Seq::<char>::empty()], "\n"@) == Seq::<char>::empty());
        assert(seq![Seq::<char>::empty()] =~= Seq::<Seq<char>>::empty().push(Seq::<char>::empty()));
    } else {
        let t = s.drop_last();
        assert(!t.contains('\r')) by {
            if t.contains('\r') {
                let k = choose|k: int| 0 <= k < t.len() && t[k] == '\r';
                assert(s[k] == '\r');
            }
        }
        lemma_lines_state_join(t);
        let (done, cur) = lines_state(t);
        assert(s =~= t.push(s.last()));
        if s.last() == '\n' {
            assert(cur.len() == 0 || cur.last() != '\r') by {
                if cur.len() > 0 && cur.last() == '\r' {
                    let parts = done.push(cur);
                    if done.len() == 0 {
                        assert(parts.len() == 1);
                        assert(join_seq(parts, "\n"@) == cur);
                    } else {
                        assert(parts.drop_last() =~= done);
                        assert(join_seq(parts, "\n"@) == join_seq(done, "\n"@) + "\n"@ + cur);
                    }
                    assert(t[t.len() - 1] == '\r');
                    assert(t.contains('\r'));
                }
            }
            assert(strip_cr(cur) == cur);
            let parts = done.push(cur).push(Seq::<char>::empty());
            assert(parts.drop_last() =~= done.push(cur));
            assert(join_seq(parts, "\n"@) == join_seq(done.push(cur), "\n"@) + "\n"@ + Seq::<char>::empty());
            assert(t + "\n"@ + Seq::<char>::empty() =~= s);
        } else {
            lemma_join_push_char(done, cur, s.last());
        }
    }
}

/// Applying no hunks gives back the text unchanged, as long as it holds no
/// carriage return (line reading drops the `\r` of a `\r\n` ending).
pub proof fn lemma_no_hunks_keep_text(content: Seq<char>)
    requires
        !content.contains('\r'),
    ensures
        patched_text(content, Seq::empty()) == Some(content),
{
    reveal_strlit("\n");
    lemma_lines_state_join(content);
    let (done, cur) = lines_state(content);
    if content.len() == 0 {
        assert(lines_seq(content) =~= Seq::<Seq<char>>::empty());
        assert(join_seq(Seq::<Seq<char>>::empty(), "\n"@) + Seq::<char>::empty() =~= content);
    } else if content.last() == '\n' {
        assert(done.len() > 0);
        let parts = done.push(cur);
        assert(parts.drop_last() =~= done);
        assert(cur =~= Seq::<char>::empty());
        assert(join_seq(parts, "\n"@) == join_seq(done, "\n"@) + "\n"@ + cur);
        assert(join_seq(done, "\n"@) + "\n"@ =~= content);
    } else {
        assert(join_seq(done.push(cur), "\n"@) + Seq::<char>::empty() =~= content);
    }
}

/// A hunk made only of context lines changes nothing where it is found.
pub proof fn lemma_context_hunk_keeps_lines(ls: Seq<Seq<char>>, cursor: nat, hunk: Seq<Seq<char>>)
    requires
        old_side(hunk) == new_side(hunk),
        cursor <= ls.len(),
        hunk_position(ls, old_side(hunk), cursor) is Some,
    ensures
        apply_hunks_from(ls, cursor, seq![hunk]) == Some(ls),
{
    let old = old_side(hunk);
    lemma_found_position(ls, old, cursor);
    lemma_first_match(ls, old, cursor);
    lemma_first_match(ls, old, 0);
    let p = hunk_position(ls, old, cursor)->0;
    if old.len() > 0 {
        assert(lines_match_at(ls, old, p as int));
    }
    assert(ls.subrange(p as int, (p + old.len()) as int) =~= old);
    assert(splice_lines(ls, p as int, old.len() as int, old) =~= ls);
    assert(seq![hunk][0] == hunk);
    assert(seq![hunk].drop_first() =~= Seq::<Seq<Seq<char>>>::empty());
    assert(apply_hunks_from(ls, (p + old.len()) as nat, Seq::empty()) == Some(ls));
}


/// The text of a file a patch adds: its lines, each ended by a newline
/// (nothing for no lines).
pub open spec fn added_text(lines: Seq<Seq<char>>) -> Seq<char> {
    if lines.len() == 0 {
        Seq::empty()
    } else {
        join_seq(lines, "\n"@) + "\n"@
    }
}

/// The text of a file a patch adds (see `added_text`).
pub fn added_file_content(lines: &[String]) -> (r: String)
    ensures
        r@ == added_text(string_views(lines@)),
{
    if lines.len() == 0 {
        return String::new();
    }
    let parts = chars_of_each(lines);
    let nl = chars_of("\n");
    let mut out = join_chars(&parts, nl.as_slice());
    push_all(&mut out, nl.as_slice());
    string_of(out.as_slice())
}

/// A patch may only add a file that does not exist yet.
pub fn check_add_target(path: &str, exists: bool) -> (r: Result<(), String>)
    ensures
        match r {
            Ok(()) => !exists,
            Err(e) => exists && e@ == "Cannot add file that already exists: "@ + path@,
        },
{
    if !exists {
        return Ok(());
    }
    let mut out = chars_of("Cannot add file that already exists: ");
    let p = chars_of(path);
    push_all(&mut out, p.as_slice());
    Err(string_of(out.as_slice()))
}

/// A patch may only delete a file that exists.
pub fn check_delete_target(path: &str, exists: bool) -> (r: Result<(), String>)
    ensures
        match r {
            Ok(()) => exists,
            Err(e) => !exists && e@ == "Cannot delete missing file: "@ + path@,
        },
{
    if exists {
        return Ok(());
    }
    let mut out = chars_of("Cannot delete missing file: ");
    let p = chars_of(path);
    push_all(&mut out, p.as_slice());
    Err(string_of(out.as_slice()))
}
} // verus!
