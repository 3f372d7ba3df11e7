//! The decisions of the workspace tools: what an edit writes, which part
//! of a file a read returns, how a directory listing is ordered, and which
//! lines a search reports. Reading and writing the files is the caller's.

use vstd::prelude::*;
use crate::text::{
    chars_of, string_of, owned, push_all, push_decimal, decimal_seq, lines_of, lines_seq,
    join_seq, join_chars, views, occurs_at, chars_occurs_at, unicode_lowercased,
    opt_view,
    to_lowercase_text, contains_seq, chars_contains,
};
use crate::html::{replaced, replace_chars};
use crate::order::{is_stable_text_order, stable_text_order};
use crate::web_tools::{clamped, number_or};

verus! {

/// Whether `from` occurs in `s`.
pub open spec fn occurs_in(s: Seq<char>, from: Seq<char>) -> bool {
    exists|i: int| occurs_at(s, from, i)
}

/// `str::replacen(from, to, 1)`: the first occurrence replaced.
pub open spec fn replaced_first(s: Seq<char>, from: Seq<char>, to: Seq<char>) -> Seq<char> {
    if occurs_in(s, from) {
        let i = choose|i: int| occurs_at(s, from, i) && forall|j: int| 0 <= j < i ==> !occurs_at(s, from, j);
        s.take(i) + to + s.skip(i + from.len())
    } else {
        s
    }
}

proof fn lemma_first_occurrence_exists(s: Seq<char>, from: Seq<char>, i: int)
    requires
        occurs_at(s, from, i),
        forall|j: int| 0 <= j < i ==> !occurs_at(s, from, j),
    ensures
        (choose|k: int| occurs_at(s, from, k) && forall|j: int| 0 <= j < k ==> !occurs_at(s, from, j)) == i,
{
    let k = choose|k: int| occurs_at(s, from, k) && forall|j: int| 0 <= j < k ==> !occurs_at(s, from, j);
    assert(occurs_at(s, from, k) && forall|j: int| 0 <= j < k ==> !occurs_at(s, from, j));
    if k < i {
        assert(!occurs_at(s, from, k));
    } else if k > i {
        assert(!occurs_at(s, from, i));
    }
}

fn replace_first_chars(s: &[char], from: &[char], to: &[char]) -> (r: Vec<char>)
    requires
        from@.len() > 0,
    ensures
        r@ == replaced_first(s@, from@, to@),
{
    let mut i: usize = 0;
    while i < s.len()
        invariant
            i <= s.len(),
            forall|j: int| 0 <= j < i ==> !occurs_at(s@, from@, j),
        decreases s.len() - i,
    {
        if chars_occurs_at(s, from, i) {
            proof {
                lemma_first_occurrence_exists(s@, from@, i as int);
            }
            let mut out = crate::text::slice_chars(s, 0, i);
            push_all(&mut out, to);
            let rest = crate::text::slice_chars(s, i + from.len(), s.len());
            push_all(&mut out, rest.as_slice());
            assert(out@ =~= s@.take(i as int) + to@ + s@.skip(i + from@.len()));
            return out;
        }
        i += 1;
    }
    proof {
        assert forall|j: int| !occurs_at(s@, from@, j) by {
            if j >= s@.len() {
                assert(!(j + from@.len() <= s@.len()));
            }
        }
    }
    crate::text::slice_chars(s, 0, s.len())
}

pub open spec fn no_match_message() -> Seq<char> {
    "No matching content found to edit"@
}

/// The text an edit leaves: every occurrence of `old` replaced by `new`
/// (or only the first); an edit that changes nothing is refused.
pub open spec fn edited_content(content: Seq<char>, old: Seq<char>, new: Seq<char>, replace_all: bool) -> Result<Seq<char>, Seq<char>> {
    let updated = if replace_all { replaced(content, old, new) } else { replaced_first(content, old, new) };
    if updated == content {
        Err(no_match_message())
    } else {
        Ok(updated)
    }
}

/// The content an edit writes (see `edited_content`). `old` is never
/// empty: the argument is required.
pub fn edit_file_content(content: &str, old: &str, new: &str, replace_all: bool) -> (r: Result<String, String>)
    requires
        old@.len() > 0,
    ensures
        match edited_content(content@, old@, new@, replace_all) {
            Ok(t) => r matches Ok(s) && s@ == t,
            Err(e) => r matches Err(m) && m@ == e,
        },
{
    let cc = chars_of(content);
    let oc = chars_of(old);
    let nc = chars_of(new);
    let updated = if replace_all {
        replace_chars(cc.as_slice(), oc.as_slice(), nc.as_slice())
    } else {
        replace_first_chars(cc.as_slice(), oc.as_slice(), nc.as_slice())
    };
    if crate::text::chars_eq(updated.as_slice(), cc.as_slice()) {
        return Err(owned("No matching content found to edit"));
    }
    Ok(string_of(updated.as_slice()))
}

/// What `String::from_utf8_lossy` gives for bytes.
pub uninterp spec fn utf8_lossy(bytes: Seq<u8>) -> Seq<char>;

/// `String::from_utf8_lossy`: the bytes as text, invalid sequences
/// replaced. The result depends on the bytes alone: it is named
/// `utf8_lossy`.
#[verifier::external_body]
pub fn utf8_lossy_text(bytes: &[u8]) -> (r: String)
    ensures
        r@ == utf8_lossy(bytes@),
{
    String::from_utf8_lossy(bytes).into_owned()
}

/// The part of a file a read returns.
#[derive(Debug, Clone)]
pub struct FileWindow {
    pub content: String,
    /// Where the part starts, in bytes.
    pub start: usize,
    /// Where it ends, in bytes.
    pub end: usize,
    pub total_bytes: usize,
    /// Whether the file goes on after the part, or lines were cut.
    pub truncated: bool,
}

/// The bytes a read covers: from the offset (at most the end) for at most
/// `max_bytes`.
pub open spec fn window_bounds(total: int, offset: int, max_bytes: int) -> (int, int) {
    let start = if offset < total { offset } else { total };
    let end = if start + max_bytes < total { start + max_bytes } else { total };
    (start, end)
}

/// The text of a read: the bytes of the window as text, cut to its first
/// `max_lines` lines (joined by `\n`) when it has more.
pub open spec fn window_text(text: Seq<char>, max_lines: Option<int>) -> (Seq<char>, bool) {
    match max_lines {
        Some(n) => if lines_seq(text).len() > n {
            (join_seq(lines_seq(text).take(n), "\n"@), true)
        } else {
            (text, false)
        },
        None => (text, false),
    }
}

fn copy_bytes(bytes: &[u8], start: usize, end: usize) -> (r: Vec<u8>)
    requires
        start <= end <= bytes@.len(),
    ensures
        r@ == bytes@.subrange(start as int, end as int),
{
    let mut out: Vec<u8> = Vec::new();
    let mut i: usize = start;
    while i < end
        invariant
            start <= i <= end,
            end <= bytes@.len(),
            out@ =~= bytes@.subrange(start as int, i as int),
        decreases end - i,
    {
        out.push(bytes[i]);
        i += 1;
    }
    out
}

/// The part of a file that a read returns (see `window_bounds` and
/// `window_text`).
pub fn read_file_window(bytes: &[u8], offset: usize, max_bytes: usize, max_lines: Option<usize>) -> (r: FileWindow)
    ensures
        (r.start as int, r.end as int) == window_bounds(bytes@.len() as int, offset as int, max_bytes as int),
        r.total_bytes == bytes@.len(),
        ({
            let (t, cut) = window_text(utf8_lossy(bytes@.subrange(r.start as int, r.end as int)), match max_lines {
                Some(n) => Some(n as int),
                None => None,
            });
            r.content@ == t && r.truncated == (r.end < bytes@.len() || cut)
        }),
{
    let total = bytes.len();
    let start = if offset < total { offset } else { total };
    let end = if max_bytes < total - start { start + max_bytes } else { total };
    let slice = copy_bytes(bytes, start, end);
    let text = utf8_lossy_text(slice.as_slice());
    let mut content = text;
    let mut lines_truncated = false;
    if let Some(n) = max_lines {
        let tc = chars_of(content.as_str());
        let lines = lines_of(tc.as_slice());
        if lines.len() > n {
            let mut kept: Vec<Vec<char>> = Vec::new();
            let mut k: usize = 0;
            while k < n
                invariant
                    k <= n,
                    n < lines@.len(),
                    views(kept@) =~= views(lines@).take(k as int),
                decreases n - k,
            {
                let ghost before = views(kept@);
                kept.push(crate::text::copy_chars(&lines[k]));
                assert(views(kept@) =~= before.push(lines@[k as int]@));
                k += 1;
            }
            assert(views(lines@) =~= lines_seq(tc@));
            let nl = chars_of("\n");
            let joined = join_chars(&kept, nl.as_slice());
            content = string_of(joined.as_slice());
            lines_truncated = true;
        } else {
            assert(views(lines@) =~= lines_seq(tc@));
        }
    }
    FileWindow { content, start, end, total_bytes: total, truncated: end < total || lines_truncated }
}

/// The keys a directory listing is sorted by: directories before files,
/// then by name.
pub open spec fn listing_keys(entries: Seq<(bool, String)>) -> Seq<Seq<char>> {
    entries.map_values(|e: (bool, String)| (if e.0 { "0"@ } else { "1"@ }) + e.1@)
}

/// The order of a directory listing: a stable sort that puts directories
/// first and orders by name (see `listing_keys`). `entries` holds whether
/// each entry is a directory, and its name.
pub fn listing_order(entries: &Vec<(bool, String)>) -> (r: Vec<usize>)
    ensures
        is_stable_text_order(listing_keys(entries@), r@),
{
    let mut keys: Vec<Vec<char>> = Vec::new();
    let mut i: usize = 0;
    while i < entries.len()
        invariant
            i <= entries.len(),
            views(keys@) =~= listing_keys(entries@.take(i as int)),
        decreases entries.len() - i,
    {
        let mut key = if entries[i].0 { chars_of("0") } else { chars_of("1") };
        let name = chars_of(entries[i].1.as_str());
        push_all(&mut key, name.as_slice());
        let ghost before = views(keys@);
        keys.push(key);
        proof {
            assert(entries@.take(i + 1) =~= entries@.take(i as int).push(entries@[i as int]));
            assert(views(keys@) =~= before.push(views(keys@).last()));
        }
        i += 1;
    }
    assert(entries@.take(entries.len() as int) =~= entries@);
    stable_text_order(&keys)
}

/// The expression a search uses: the pattern itself, or the pattern with
/// its meta characters escaped when it is plain text.
pub open spec fn search_source(pattern: Seq<char>, use_regex: bool) -> Seq<char> {
    if use_regex {
        pattern
    } else {
        crate::permissions::regex_escaped(pattern)
    }
}

/// The error `RegexBuilder::build` reports for an expression (with the
/// given case sensitivity), or `None` when it builds.
pub uninterp spec fn regex_build_error(source: Seq<char>, case_insensitive: bool) -> Option<Seq<char>>;

/// Builds `source` with `regex::RegexBuilder` (case-insensitive when asked)
/// and reports the builder's error text when it fails. The result depends
/// on the arguments alone: it is named `regex_build_error`.
#[verifier::external_body]
fn check_regex_builds(source: &str, case_insensitive: bool) -> (r: Option<String>)
    ensures
        opt_view(r) == regex_build_error(source@, case_insensitive),
{
    match regex::RegexBuilder::new(source).case_insensitive(case_insensitive).build() {
        Ok(_) => None,
        Err(e) => Some(e.to_string()),
    }
}

/// Whether the expression (built by `RegexBuilder`, case-insensitive when
/// asked) matches somewhere in the line.
pub uninterp spec fn regex_matches_with_case(source: Seq<char>, case_insensitive: bool, line: Seq<char>) -> bool;

/// Builds `source` with `regex::RegexBuilder` once and asks
/// `Regex::is_match` of each line; an expression that does not build
/// matches nothing. Each answer depends on the expression, the case
/// setting and the line alone: it is named `regex_matches_with_case`.
#[verifier::external_body]
fn regex_match_each(source: &str, case_insensitive: bool, lines: &Vec<Vec<char>>) -> (r: Vec<bool>)
    ensures
        r@.len() == lines@.len(),
        forall|i: int| 0 <= i < lines@.len() ==> #[trigger] r@[i] == regex_matches_with_case(source@, case_insensitive, lines@[i]@),
{
    match regex::RegexBuilder::new(source).case_insensitive(case_insensitive).build() {
        Ok(re) => lines.iter().map(|l| re.is_match(&l.iter().collect::<String>())).collect(),
        Err(_) => lines.iter().map(|_| false).collect(),
    }
}

/// The expression of a search, or the error that it does not build
/// (`Invalid search pattern: ...`).
pub fn build_search_regex(pattern: &str, use_regex: bool, case_sensitive: bool) -> (r: Result<String, String>)
    ensures
        match regex_build_error(search_source(pattern@, use_regex), !case_sensitive) {
            None => r matches Ok(s) && s@ == search_source(pattern@, use_regex),
            Some(e) => r matches Err(m) && m@ == "Invalid search pattern: "@ + e,
        },
{
    let source = if use_regex { owned(pattern) } else { crate::permissions::regex_escape(pattern) };
    match check_regex_builds(source.as_str(), !case_sensitive) {
        None => Ok(source),
        Some(e) => {
            let mut msg = chars_of("Invalid search pattern: ");
            let ec = chars_of(e.as_str());
            push_all(&mut msg, ec.as_slice());
            Err(string_of(msg.as_slice()))
        },
    }
}

/// The lines of a text that the expression matches, with their numbers
/// (from 1), in order.
pub open spec fn grep_hits(lines: Seq<Seq<char>>, source: Seq<char>, case_insensitive: bool) -> Seq<(int, Seq<char>)>
    decreases lines.len(),
{
    if lines.len() == 0 {
        Seq::empty()
    } else {
        let prev = grep_hits(lines.drop_last(), source, case_insensitive);
        if regex_matches_with_case(source, case_insensitive, lines.last()) {
            prev.push((lines.len() as int, lines.last()))
        } else {
            prev
        }
    }
}

/// At most `n` items from the start.
pub open spec fn at_most<A>(s: Seq<A>, n: int) -> Seq<A> {
    if s.len() <= n {
        s
    } else {
        s.take(n)
    }
}

/// A matching line.
#[derive(Debug, Clone)]
pub struct LineHit {
    pub line_number: usize,
    pub line: String,
}

pub open spec fn line_hits_view(h: Seq<LineHit>) -> Seq<(int, Seq<char>)> {
    h.map_values(|x: LineHit| (x.line_number as int, x.line@))
}

proof fn lemma_grep_hits_step(lines: Seq<Seq<char>>, source: Seq<char>, ci: bool, i: int)
    requires
        0 <= i < lines.len(),
    ensures
        grep_hits(lines.take(i + 1), source, ci) == if regex_matches_with_case(source, ci, lines[i]) {
            grep_hits(lines.take(i), source, ci).push((i + 1, lines[i]))
        } else {
            grep_hits(lines.take(i), source, ci)
        },
{
    assert(lines.take(i + 1).drop_last() =~= lines.take(i));
    assert(lines.take(i + 1).last() == lines[i]);
}

proof fn lemma_grep_hits_grow(lines: Seq<Seq<char>>, source: Seq<char>, ci: bool, i: int, j: int)
    requires
        0 <= i <= j <= lines.len(),
    ensures
        grep_hits(lines.take(i), source, ci).len() <= grep_hits(lines.take(j), source, ci).len(),
        grep_hits(lines.take(i), source, ci) =~= grep_hits(lines.take(j), source, ci).take(grep_hits(lines.take(i), source, ci).len() as int),
    decreases j - i,
{
    if i < j {
        lemma_grep_hits_grow(lines, source, ci, i, j - 1);
        lemma_grep_hits_step(lines, source, ci, j - 1);
    }
}

/// The lines of a text that a search matches (see `grep_hits`), at most
/// `remaining` of them. `source` is the built expression.
pub fn grep_lines(text: &str, source: &str, case_insensitive: bool, remaining: usize) -> (r: Vec<LineHit>)
    ensures
        line_hits_view(r@) == at_most(grep_hits(lines_seq(text@), source@, case_insensitive), remaining as int),
{
    let tc = chars_of(text);
    let lines = lines_of(tc.as_slice());
    let ghost ls = lines_seq(text@);
    assert(views(lines@) =~= ls);
    let flags = regex_match_each(source, case_insensitive, &lines);
    let mut out: Vec<LineHit> = Vec::new();
    let mut i: usize = 0;
    while i < lines.len()
        invariant_except_break
            out@.len() < remaining || (remaining == 0 && out@.len() == 0),
        invariant
            i <= lines.len(),
            views(lines@) == ls,
            flags@.len() == lines@.len(),
            forall|k: int| 0 <= k < lines@.len() ==> #[trigger] flags@[k] == regex_matches_with_case(source@, case_insensitive, lines@[k]@),
            line_hits_view(out@) == grep_hits(ls.take(i as int), source@, case_insensitive),
        ensures
            (i == lines.len() && out@.len() <= remaining && line_hits_view(out@) == grep_hits(ls.take(i as int), source@, case_insensitive))
                || line_hits_view(out@) == at_most(grep_hits(ls, source@, case_insensitive), remaining as int),
        decreases lines.len() - i,
    {
        if remaining == 0 {
            proof {
                lemma_grep_hits_grow(ls, source@, case_insensitive, 0, ls.len() as int);
                assert(ls.take(0) =~= Seq::<Seq<char>>::empty());
                assert(grep_hits(ls.take(0), source@, case_insensitive) =~= Seq::<(int, Seq<char>)>::empty());
                assert(ls.take(ls.len() as int) =~= ls);
            }
            break;
        }
        proof {
            lemma_grep_hits_step(ls, source@, case_insensitive, i as int);
        }
        if flags[i] {
            let ghost before = line_hits_view(out@);
            out.push(LineHit { line_number: i + 1, line: string_of(lines[i].as_slice()) });
            assert(line_hits_view(out@) =~= before.push(((i + 1) as int, ls[i as int])));
        }
        i += 1;
        if out.len() >= remaining {
            proof {
                lemma_grep_hits_grow(ls, source@, case_insensitive, i as int, ls.len() as int);
                assert(ls.take(ls.len() as int) =~= ls);
            }
            break;
        }
    }
    proof {
        if i == lines.len() {
            assert(ls.take(i as int) =~= ls);
        }
    }
    out
}

/// The lines from `start` to `end` (not included), each after its number
/// (from 1) and `: `.
pub open spec fn numbered_lines(lines: Seq<Seq<char>>, start: int, end: int) -> Seq<Seq<char>> {
    Seq::new((end - start) as nat, |o: int| decimal_seq((start + o + 1) as nat) + ": "@ + lines[start + o])
}

/// The snippet around line `k`: `context` lines before and after it (as
/// far as the text goes), numbered, one per line.
pub open spec fn snippet_at(lines: Seq<Seq<char>>, k: int, context: int) -> Seq<char> {
    let start = if k - context > 0 { k - context } else { 0 };
    let end = if k + context + 1 < lines.len() { k + context + 1 } else { lines.len() as int };
    join_seq(numbered_lines(lines, start, end), "\n"@)
}

/// The matches of a code search in a text: each matching line's number and
/// snippet, in order. `lines_before` are the lines searched so far.
pub open spec fn code_hits(lines: Seq<Seq<char>>, upto: int, source: Seq<char>, context: int) -> Seq<(int, Seq<char>)>
    decreases upto,
{
    if upto <= 0 {
        Seq::empty()
    } else {
        let prev = code_hits(lines, upto - 1, source, context);
        if regex_matches_with_case(source, true, lines[upto - 1]) {
            prev.push((upto, snippet_at(lines, upto - 1, context)))
        } else {
            prev
        }
    }
}

proof fn lemma_code_hits_grow(lines: Seq<Seq<char>>, source: Seq<char>, context: int, i: int, j: int)
    requires
        0 <= i <= j,
    ensures
        code_hits(lines, i, source, context).len() <= code_hits(lines, j, source, context).len(),
        code_hits(lines, i, source, context) =~= code_hits(lines, j, source, context).take(code_hits(lines, i, source, context).len() as int),
    decreases j - i,
{
    if i < j {
        lemma_code_hits_grow(lines, source, context, i, j - 1);
    }
}

/// A match of a code search.
#[derive(Debug, Clone)]
pub struct CodeHit {
    pub line_number: usize,
    pub snippet: String,
}

pub open spec fn code_hits_view(h: Seq<CodeHit>) -> Seq<(int, Seq<char>)> {
    h.map_values(|x: CodeHit| (x.line_number as int, x.snippet@))
}

fn snippet_text(lines: &Vec<Vec<char>>, k: usize, context: usize) -> (r: String)
    requires
        k < lines@.len(),
        context <= 20,
    ensures
        r@ == snippet_at(views(lines@), k as int, context as int),
{
    let start = if k > context { k - context } else { 0 };
    let end = if context + 1 < lines.len() - k { k + context + 1 } else { lines.len() };
    let mut parts: Vec<Vec<char>> = Vec::new();
    let mut j: usize = start;
    let ghost ls = views(lines@);
    while j < end
        invariant
            start <= j <= end,
            end <= lines@.len(),
            ls == views(lines@),
            views(parts@) =~= numbered_lines(ls, start as int, j as int),
        decreases end - j,
    {
        let mut line: Vec<char> = Vec::new();
        push_decimal(&mut line, (j + 1) as u64);
        let sep = chars_of(": ");
        push_all(&mut line, sep.as_slice());
        push_all(&mut line, lines[j].as_slice());
        let ghost before = views(parts@);
        parts.push(line);
        assert(views(parts@) =~= before.push(decimal_seq((j + 1) as nat) + ": "@ + ls[j as int]));
        j += 1;
    }
    let nl = chars_of("\n");
    let joined = join_chars(&parts, nl.as_slice());
    string_of(joined.as_slice())
}

/// The matches of a code search for `query` (as plain text, in any case)
/// in a text: each matching line's number and snippet with `context`
/// lines around it, at most `remaining` of them. `source` is the built
/// expression of the query.
pub fn code_search_text(text: &str, source: &str, context: usize, remaining: usize) -> (r: Vec<CodeHit>)
    requires
        context <= 20,
    ensures
        code_hits_view(r@) == at_most(code_hits(lines_seq(text@), lines_seq(text@).len() as int, source@, context as int), remaining as int),
{
    let tc = chars_of(text);
    let lines = lines_of(tc.as_slice());
    let ghost ls = lines_seq(text@);
    assert(views(lines@) =~= ls);
    let flags = regex_match_each(source, true, &lines);
    let mut out: Vec<CodeHit> = Vec::new();
    let mut i: usize = 0;
    let ghost n = ls.len() as int;
    while i < lines.len()
        invariant_except_break
            out@.len() < remaining || (remaining == 0 && out@.len() == 0),
        invariant
            i <= lines.len(),
            context <= 20,
            n == lines@.len(),
            views(lines@) == ls,
            flags@.len() == lines@.len(),
            forall|k: int| 0 <= k < lines@.len() ==> #[trigger] flags@[k] == regex_matches_with_case(source@, true, lines@[k]@),
            code_hits_view(out@) == code_hits(ls, i as int, source@, context as int),
        ensures
            (i == lines.len() && out@.len() <= remaining && code_hits_view(out@) == code_hits(ls, i as int, source@, context as int))
                || code_hits_view(out@) == at_most(code_hits(ls, n, source@, context as int), remaining as int),
        decreases lines.len() - i,
    {
        if remaining == 0 {
            proof {
                lemma_code_hits_grow(ls, source@, context as int, 0, n);
            }
            break;
        }
        if flags[i] {
            let snippet = snippet_text(&lines, i, context);
            let ghost before = code_hits_view(out@);
            out.push(CodeHit { line_number: i + 1, snippet });
            assert(code_hits_view(out@) =~= before.push(((i + 1) as int, snippet_at(ls, i as int, context as int))));
        }
        i += 1;
        if out.len() >= remaining {
            proof {
                lemma_code_hits_grow(ls, source@, context as int, i as int, n);
            }
            break;
        }
    }
    out
}

/// Group 1 of the first match of `pattern` in a line, or the empty text
/// when it took no part; `None` when nothing matches.
pub open spec fn first_group_opt(pattern: Seq<char>, line: Seq<char>) -> Option<Seq<char>> {
    match crate::html::regex_first_groups(pattern, line) {
        Some(g) => Some(crate::html::group_or_empty(g, 1)),
        None => None,
    }
}

/// Compiles `pattern` with `regex::Regex::new` once and takes, for each
/// line, group 1 of its first match (`Regex::captures`; the empty text
/// when the group took no part), or `None`; a pattern that does not
/// compile matches nothing. Each answer is stated over the name
/// `regex_first_groups` of `Regex::captures`.
#[verifier::external_body]
fn regex_first_group_each(pattern: &str, lines: &Vec<Vec<char>>) -> (r: Vec<Option<String>>)
    ensures
        r@.len() == lines@.len(),
        forall|i: int| 0 <= i < lines@.len() ==> #[trigger] opt_view(r@[i]) == first_group_opt(pattern@, lines@[i]@),
{
    match regex::Regex::new(pattern) {
        Ok(re) => lines
            .iter()
            .map(|l| re.captures(&l.iter().collect::<String>()).map(|c| c.get(1).map_or(String::new(), |m| m.as_str().to_string())))
            .collect(),
        Err(_) => lines.iter().map(|_| None).collect(),
    }
}

pub open spec fn symbol_patterns() -> Seq<(Seq<char>, Seq<char>)> {
    seq![
        ("function"@, r"^\s*(?:pub\s+)?(?:async\s+)?fn\s+([A-Za-z_][A-Za-z0-9_]*)"@),
        ("class"@, r"^\s*class\s+([A-Za-z_][A-Za-z0-9_]*)"@),
        ("type"@, r"^\s*(?:export\s+)?(?:interface|type|struct|enum)\s+([A-Za-z_][A-Za-z0-9_]*)"@),
    ]
}

/// Whether a symbol name is kept: any when the query is empty, else those
/// whose lowercase contains the query.
pub open spec fn symbol_kept(name: Seq<char>, query: Seq<char>) -> bool {
    query.len() == 0 || contains_seq(unicode_lowercased(name), query)
}

/// The symbol one pattern finds on a line, when it finds one and it is
/// kept.
pub open spec fn picked_symbol(found: Option<Seq<char>>, kind: Seq<char>, number: int, query: Seq<char>) -> Seq<(Seq<char>, Seq<char>, int)> {
    match found {
        Some(name) => if symbol_kept(name, query) {
            seq![(name, kind, number)]
        } else {
            Seq::empty()
        },
        None => Seq::empty(),
    }
}

/// The symbols a line declares, for each kind in order.
pub open spec fn line_symbols(line: Seq<char>, number: int, query: Seq<char>) -> Seq<(Seq<char>, Seq<char>, int)> {
    picked_symbol(first_group_opt(symbol_patterns()[0].1, line), symbol_patterns()[0].0, number, query)
        + picked_symbol(first_group_opt(symbol_patterns()[1].1, line), symbol_patterns()[1].0, number, query)
        + picked_symbol(first_group_opt(symbol_patterns()[2].1, line), symbol_patterns()[2].0, number, query)
}

/// The symbols of a text's first `upto` lines: name, kind, line number.
pub open spec fn text_symbols(lines: Seq<Seq<char>>, upto: int, query: Seq<char>) -> Seq<(Seq<char>, Seq<char>, int)>
    decreases upto,
{
    if upto <= 0 {
        Seq::empty()
    } else {
        text_symbols(lines, upto - 1, query) + line_symbols(lines[upto - 1], upto, query)
    }
}

/// A symbol found in a file.
#[derive(Debug, Clone)]
pub struct SymbolHit {
    pub name: String,
    pub kind: String,
    pub line_number: usize,
}

pub open spec fn symbol_hits_view(h: Seq<SymbolHit>) -> Seq<(Seq<char>, Seq<char>, int)> {
    h.map_values(|x: SymbolHit| (x.name@, x.kind@, x.line_number as int))
}

/// `a` with as much of `b` as fits under `cap` items.
pub open spec fn capped_append<A>(a: Seq<A>, b: Seq<A>, cap: int) -> Seq<A> {
    if a.len() >= cap {
        a
    } else {
        a + at_most(b, cap - a.len())
    }
}

proof fn lemma_at_most_concat<A>(x: Seq<A>, y: Seq<A>, cap: int)
    requires
        cap >= 0,
    ensures
        at_most(x + y, cap) == capped_append(at_most(x, cap), y, cap),
{
    if x.len() >= cap {
        assert((x + y).take(cap) =~= x.take(cap));
        if x.len() == cap {
            assert(x.take(cap) =~= x);
            if y.len() == 0 {
                assert(x + y =~= x);
            }
        }
    } else if x.len() + y.len() <= cap {
    } else {
        assert((x + y).take(cap) =~= x + y.take(cap - x.len()));
    }
}

proof fn lemma_capped_twice<A>(a: Seq<A>, x: Seq<A>, y: Seq<A>, cap: int)
    requires
        cap >= 0,
    ensures
        capped_append(capped_append(a, x, cap), y, cap) == capped_append(a, x + y, cap),
{
    if a.len() < cap {
        lemma_at_most_concat(x, y, cap - a.len());
        let ax = at_most(x, cap - a.len());
        if ax.len() >= cap - a.len() {
            assert(capped_append(a, x, cap) == a + ax);
        } else {
            assert((a + ax) + at_most(y, cap - (a + ax).len()) =~= a + (ax + at_most(y, (cap - a.len()) - ax.len())));
        }
    }
}

fn push_symbol(out: &mut Vec<SymbolHit>, found: &Option<String>, kind: &str, number: usize, query: &str, remaining: usize)
    ensures
        symbol_hits_view(final(out)@) == capped_append(
            symbol_hits_view(old(out)@),
            picked_symbol(opt_view(*found), kind@, number as int, query@),
            remaining as int,
        ),
{
    let ghost before = symbol_hits_view(out@);
    if out.len() >= remaining {
        return;
    }
    if let Some(name) = found {
        let lower = to_lowercase_text(name.as_str());
        let lc = chars_of(lower.as_str());
        let qc = chars_of(query);
        if query.is_empty() || chars_contains(lc.as_slice(), qc.as_slice()) {
            out.push(SymbolHit { name: name.clone(), kind: owned(kind), line_number: number });
            assert(symbol_hits_view(out@) =~= before.push((name@, kind@, number as int)));
            return;
        }
    }
    assert(before + Seq::<(Seq<char>, Seq<char>, int)>::empty() =~= before);
}

proof fn lemma_text_symbols_grow(lines: Seq<Seq<char>>, query: Seq<char>, i: int, j: int)
    requires
        0 <= i <= j,
    ensures
        text_symbols(lines, i, query).len() <= text_symbols(lines, j, query).len(),
        text_symbols(lines, i, query) =~= text_symbols(lines, j, query).take(text_symbols(lines, i, query).len() as int),
    decreases j - i,
{
    if i < j {
        lemma_text_symbols_grow(lines, query, i, j - 1);
    }
}

/// The symbols declared in a text (functions, classes, types, by their
/// patterns), those whose lowercase name contains `query` (all when it is
/// empty), at most `remaining` of them, in order.
pub fn symbols_in_text(text: &str, query: &str, remaining: usize) -> (r: Vec<SymbolHit>)
    ensures
        symbol_hits_view(r@) == at_most(text_symbols(lines_seq(text@), lines_seq(text@).len() as int, query@), remaining as int),
{
    let tc = chars_of(text);
    let lines = lines_of(tc.as_slice());
    let ghost ls = lines_seq(text@);
    assert(views(lines@) =~= ls);
    let p0 = r"^\s*(?:pub\s+)?(?:async\s+)?fn\s+([A-Za-z_][A-Za-z0-9_]*)";
    let p1 = r"^\s*class\s+([A-Za-z_][A-Za-z0-9_]*)";
    let p2 = r"^\s*(?:export\s+)?(?:interface|type|struct|enum)\s+([A-Za-z_][A-Za-z0-9_]*)";
    let found0 = regex_first_group_each(p0, &lines);
    let found1 = regex_first_group_each(p1, &lines);
    let found2 = regex_first_group_each(p2, &lines);
    let mut out: Vec<SymbolHit> = Vec::new();
    let mut i: usize = 0;
    let ghost n = ls.len() as int;
    let ghost cap = remaining as int;
    assert(symbol_hits_view(out@) =~= at_most(text_symbols(ls, 0, query@), cap));
    while i < lines.len()
        invariant
            i <= lines.len(),
            n == lines@.len(),
            cap == remaining as int,
            views(lines@) == ls,
            found0@.len() == n && found1@.len() == n && found2@.len() == n,
            forall|k: int| 0 <= k < n ==> #[trigger] opt_view(found0@[k]) == first_group_opt(symbol_patterns()[0].1, lines@[k]@),
            forall|k: int| 0 <= k < n ==> #[trigger] opt_view(found1@[k]) == first_group_opt(symbol_patterns()[1].1, lines@[k]@),
            forall|k: int| 0 <= k < n ==> #[trigger] opt_view(found2@[k]) == first_group_opt(symbol_patterns()[2].1, lines@[k]@),
            symbol_hits_view(out@) == at_most(text_symbols(ls, i as int, query@), cap),
        ensures
            (i == lines.len() && symbol_hits_view(out@) == at_most(text_symbols(ls, i as int, query@), cap))
                || symbol_hits_view(out@) == at_most(text_symbols(ls, n, query@), cap),
        decreases lines.len() - i,
    {
        let ghost before = symbol_hits_view(out@);
        let ghost line = ls[i as int];
        let ghost q0 = picked_symbol(first_group_opt(symbol_patterns()[0].1, line), symbol_patterns()[0].0, (i + 1) as int, query@);
        let ghost q1 = picked_symbol(first_group_opt(symbol_patterns()[1].1, line), symbol_patterns()[1].0, (i + 1) as int, query@);
        let ghost q2 = picked_symbol(first_group_opt(symbol_patterns()[2].1, line), symbol_patterns()[2].0, (i + 1) as int, query@);
        push_symbol(&mut out, &found0[i], "function", i + 1, query, remaining);
        push_symbol(&mut out, &found1[i], "class", i + 1, query, remaining);
        push_symbol(&mut out, &found2[i], "type", i + 1, query, remaining);
        proof {
            assert(lines@[i as int]@ == line);
            lemma_capped_twice(before, q0, q1, cap);
            lemma_capped_twice(before, q0 + q1, q2, cap);
            lemma_at_most_concat(text_symbols(ls, i as int, query@), line_symbols(line, (i + 1) as int, query@), cap);
            assert(text_symbols(ls, (i + 1) as int, query@) == text_symbols(ls, i as int, query@) + line_symbols(line, (i + 1) as int, query@));
        }
        i += 1;
        if out.len() >= remaining {
            proof {
                lemma_text_symbols_grow(ls, query@, i as int, n);
                let t_i = text_symbols(ls, i as int, query@);
                let t_n = text_symbols(ls, n, query@);
                assert(t_i.len() >= cap);
                assert(t_n.take(cap) =~= t_i.take(cap));
            }
            break;
        }
    }
    out
}

/// The languages whose files are searched for symbols, by lowercase
/// extension.
pub open spec fn is_symbol_source_extension(ext: Seq<char>) -> bool {
    ext == "rs"@ || ext == "ts"@ || ext == "tsx"@ || ext == "js"@ || ext == "jsx"@ || ext == "py"@
        || ext == "go"@ || ext == "java"@ || ext == "c"@ || ext == "cpp"@ || ext == "h"@ || ext == "hpp"@
        || ext == "vue"@
}

/// Whether a file is searched for symbols: its extension, in Unicode
/// lowercase, is one of the languages (see `is_symbol_source_extension`).
pub fn is_symbol_source(extension: &str) -> (r: bool)
    ensures
        r == is_symbol_source_extension(unicode_lowercased(extension@)),
{
    let e = to_lowercase_text(extension);
    let s = e.as_str();
    crate::text::str_eq(s, "rs") || crate::text::str_eq(s, "ts") || crate::text::str_eq(s, "tsx")
        || crate::text::str_eq(s, "js") || crate::text::str_eq(s, "jsx") || crate::text::str_eq(s, "py")
        || crate::text::str_eq(s, "go") || crate::text::str_eq(s, "java") || crate::text::str_eq(s, "c")
        || crate::text::str_eq(s, "cpp") || crate::text::str_eq(s, "h") || crate::text::str_eq(s, "hpp")
        || crate::text::str_eq(s, "vue")
}

/// `Not a directory: <path>`.
pub fn not_a_directory(display: &str) -> (r: String)
    ensures
        r@ == "Not a directory: "@ + display@,
{
    let mut out = chars_of("Not a directory: ");
    let d = chars_of(display);
    push_all(&mut out, d.as_slice());
    string_of(out.as_slice())
}

/// `Not a file: <path>`.
pub fn not_a_file(display: &str) -> (r: String)
    ensures
        r@ == "Not a file: "@ + display@,
{
    let mut out = chars_of("Not a file: ");
    let d = chars_of(display);
    push_all(&mut out, d.as_slice());
    string_of(out.as_slice())
}

/// The arguments of the workspace search tools, as given.
#[derive(Debug, Clone)]
pub struct SearchArgs {
    pub pattern: Option<String>,
    pub path: Option<String>,
    pub glob: Option<String>,
    pub max_results: Option<u64>,
    pub context_lines: Option<u64>,
    pub file_max_bytes: Option<u64>,
}

/// How a workspace search runs.
#[derive(Debug, Clone)]
pub struct SearchPlan {
    /// The pattern or query (required for grep, glob and code search; the
    /// lowercase query for symbols, empty when not given).
    pub pattern: String,
    /// The directory searched (`.` when not given).
    pub path: String,
    pub glob: Option<String>,
    pub max_results: usize,
    pub context_lines: usize,
    pub file_max_bytes: usize,
}

/// Which workspace search a plan is for.
#[derive(Debug, Clone, Copy, PartialEq, Eq, Structural)]
pub enum SearchTool {
    Grep,
    Glob,
    CodeSearch,
    Symbols,
}

/// The limits of each search: the default and the range of the number of
/// results.
pub open spec fn result_limits(tool: SearchTool) -> (int, int, int) {
    match tool {
        SearchTool::Grep => (200, 1, 5_000),
        SearchTool::Glob => (200, 1, 5_000),
        SearchTool::CodeSearch => (100, 1, 2_000),
        SearchTool::Symbols => (200, 1, 2_000),
    }
}

/// The plan of a workspace search: the pattern (`pattern` for grep and
/// glob, `query` for code search, both required; the optional `query` of a
/// symbol search in Unicode lowercase), the directory (`.`), the glob,
/// the number of results (see `result_limits`), the context lines (2,
/// within 0..20) and the largest file searched (2 000 000 bytes).
pub fn search_plan(tool: SearchTool, args: &SearchArgs) -> (r: Result<SearchPlan, String>)
    ensures
        ({
            let key = if tool == SearchTool::CodeSearch || tool == SearchTool::Symbols { "query"@ } else { "pattern"@ };
            let (d, lo, hi) = result_limits(tool);
            if tool != SearchTool::Symbols && crate::text::trimmed_present(args.pattern) is None {
                r matches Err(e) && e@ == crate::todo::required_message(key)
            } else {
                r matches Ok(p) && {
                    &&& p.pattern@ == if tool == SearchTool::Symbols {
                        match crate::text::trimmed_present(args.pattern) {
                            Some(q) => unicode_lowercased(q),
                            None => Seq::empty(),
                        }
                    } else {
                        crate::text::trimmed_present(args.pattern)->0
                    }
                    &&& p.path@ == match crate::text::trimmed_present(args.path) {
                        Some(t) => t,
                        None => "."@,
                    }
                    &&& opt_view(p.glob) == crate::text::trimmed_present(args.glob)
                    &&& p.max_results == clamped(number_or(args.max_results, d), lo, hi)
                    &&& p.context_lines == clamped(number_or(args.context_lines, 2), 0, 20)
                    &&& p.file_max_bytes as int == (number_or(args.file_max_bytes, 2_000_000) as usize) as int
                }
            }
        }),
{
    let pattern = if tool == SearchTool::Symbols {
        match crate::text::trim_present(&args.pattern) {
            Some(q) => to_lowercase_text(q.as_str()),
            None => String::new(),
        }
    } else {
        let key = if tool == SearchTool::CodeSearch { "query" } else { "pattern" };
        let raw = match &args.pattern {
            Some(p) => crate::todo::read_string_argument(Some(p.as_str()), key),
            None => crate::todo::read_string_argument(None, key),
        };
        match raw {
            Ok(p) => p,
            Err(e) => {
                return Err(e);
            },
        }
    };
    let path = match crate::text::trim_present(&args.path) {
        Some(t) => t,
        None => owned("."),
    };
    let glob = crate::text::trim_present(&args.glob);
    let (d, lo, hi): (u64, u64, u64) = match tool {
        SearchTool::Grep => (200, 1, 5_000),
        SearchTool::Glob => (200, 1, 5_000),
        SearchTool::CodeSearch => (100, 1, 2_000),
        SearchTool::Symbols => (200, 1, 2_000),
    };
    let m = match args.max_results {
        Some(v) => v,
        None => d,
    };
    let max_results = (if m < lo { lo } else if m > hi { hi } else { m }) as usize;
    let c = match args.context_lines {
        Some(v) => v,
        None => 2,
    };
    let context_lines = (if c > 20 { 20 } else { c }) as usize;
    let file_max_bytes = match args.file_max_bytes {
        Some(v) => v,
        None => 2_000_000,
    } as usize;
    Ok(SearchPlan { pattern, path, glob, max_results, context_lines, file_max_bytes })
}


/// How much of a file `workspace_read_file` returns.
pub struct ReadLimits {
    pub max_bytes: usize,
    pub offset_bytes: usize,
    pub max_lines: Option<usize>,
}

/// Reads the limits of `workspace_read_file`: at most `max_bytes` bytes
/// (200 000 when not given, held between 1 and 2 000 000), from
/// `offset_bytes` (0 when not given), and at most `max_lines` lines when
/// given (held between 1 and 200 000).
pub fn read_limits(max_bytes: Option<u64>, offset_bytes: Option<u64>, max_lines: Option<u64>) -> (r: ReadLimits)
    ensures
        r.max_bytes == clamped(number_or(max_bytes, 200_000), 1, 2_000_000),
        r.offset_bytes == (number_or(offset_bytes, 0) as usize),
        match max_lines {
            Some(n) => r.max_lines == Some(clamped(n as int, 1, 200_000) as usize),
            None => r.max_lines is None,
        },
{
    let mb = crate::web_tools::clamp_u64(match max_bytes { Some(v) => v, None => 200_000 }, 1, 2_000_000);
    let off: u64 = match offset_bytes { Some(v) => v, None => 0 };
    let lines = match max_lines {
        Some(n) => Some(crate::web_tools::clamp_u64(n, 1, 200_000) as usize),
        None => None,
    };
    ReadLimits { max_bytes: mb as usize, offset_bytes: off as usize, max_lines: lines }
}

/// What `globset` makes of a pattern, built as one glob (without
/// `literal_separator`) in a glob set: `Ok`, or where it fails, whether the
/// glob itself was refused (else the set was) and the error's text.
pub uninterp spec fn glob_outcome(pattern: Seq<char>) -> Result<(), (bool, Seq<char>)>;

/// Whether the glob set of a pattern matches a path.
pub uninterp spec fn glob_set_matches(pattern: Seq<char>, path: Seq<char>) -> bool;

/// Builds the glob set of one pattern with `globset::GlobBuilder` (without
/// `literal_separator`) and `GlobSetBuilder`, and matches each path with
/// `GlobSet::is_match`. The outcome and each match depend on the pattern
/// and the path alone; they are named by `glob_outcome` and
/// `glob_set_matches`.
#[verifier::external_body]
fn glob_match_each(pattern: &str, paths: &Vec<String>) -> (r: Result<Vec<bool>, (bool, String)>)
    ensures
        match r {
            Ok(v) => glob_outcome(pattern@) is Ok && v@.len() == paths@.len()
                && forall|i: int| 0 <= i < v@.len() ==> #[trigger] v@[i] == glob_set_matches(pattern@, paths@[i]@),
            Err((in_glob, text)) => glob_outcome(pattern@) == Err::<(), (bool, Seq<char>)>((in_glob, text@)),
        },
{
    let glob = match globset::GlobBuilder::new(pattern).literal_separator(false).build() {
        Ok(g) => g,
        Err(e) => return Err((true, e.to_string())),
    };
    let mut builder = globset::GlobSetBuilder::new();
    builder.add(glob);
    match builder.build() {
        Ok(set) => Ok(paths.iter().map(|p| set.is_match(p.as_str())).collect()),
        Err(e) => Err((false, e.to_string())),
    }
}

/// The positions of the paths a glob matches, in order.
pub open spec fn glob_hits(pattern: Seq<char>, paths: Seq<Seq<char>>) -> Seq<int>
    decreases paths.len(),
{
    if paths.len() == 0 {
        Seq::empty()
    } else {
        let rest = glob_hits(pattern, paths.drop_last());
        if glob_set_matches(pattern, paths.last()) {
            rest.push(paths.len() - 1)
        } else {
            rest
        }
    }
}

/// The error of a pattern `globset` refuses.
pub open spec fn glob_error_text(pattern: Seq<char>, in_glob: bool, text: Seq<char>) -> Seq<char> {
    if in_glob {
        "Invalid glob '"@ + pattern + "': "@ + text
    } else {
        "Failed to build glob matcher: "@ + text
    }
}

/// Which of the paths (relative to the workspace root, in the order they
/// were walked) a glob pattern keeps: the positions of the first `max`
/// that match; an error when `globset` refuses the pattern.
pub fn glob_filter(pattern: &str, paths: &Vec<String>, max: usize) -> (r: Result<Vec<usize>, String>)
    ensures
        match glob_outcome(pattern@) {
            Err((in_glob, text)) => r matches Err(e) && e@ == glob_error_text(pattern@, in_glob, text),
            Ok(()) => r matches Ok(v) && v@.map_values(|i: usize| i as int)
                == at_most(glob_hits(pattern@, crate::text::string_views(paths@)), max as int),
        },
{
    let matched = match glob_match_each(pattern, paths) {
        Ok(v) => v,
        Err((in_glob, text)) => {
            let mut out = if in_glob { chars_of("Invalid glob '") } else { chars_of("Failed to build glob matcher: ") };
            if in_glob {
                push_all(&mut out, chars_of(pattern).as_slice());
                push_all(&mut out, chars_of("': ").as_slice());
            }
            push_all(&mut out, chars_of(text.as_str()).as_slice());
            return Err(string_of(out.as_slice()));
        },
    };
    let ghost views = crate::text::string_views(paths@);
    let mut hits: Vec<usize> = Vec::new();
    let mut i: usize = 0;
    while i < matched.len() && hits.len() < max
        invariant
            i <= matched@.len(),
            matched@.len() == paths@.len(),
            views == crate::text::string_views(paths@),
            forall|k: int| 0 <= k < matched@.len() ==> #[trigger] matched@[k] == glob_set_matches(pattern@, paths@[k]@),
            hits@.len() <= max,
            hits@.map_values(|x: usize| x as int) == at_most(glob_hits(pattern@, views.take(i as int)), max as int),
            hits@.len() < max ==> hits@.map_values(|x: usize| x as int) == glob_hits(pattern@, views.take(i as int)),
        decreases matched@.len() - i,
    {
        let ghost before = hits@;
        proof {
            assert(views.take(i + 1).drop_last() =~= views.take(i as int));
            assert(views.take(i + 1).last() == paths@[i as int]@);
        }
        if matched[i] {
            hits.push(i);
            assert(hits@.map_values(|x: usize| x as int) =~= before.map_values(|x: usize| x as int).push(i as int));
        }
        i = i + 1;
    }
    proof {
        if hits@.len() < max {
            assert(i == matched@.len());
            assert(views.take(i as int) =~= views);
        } else {
            lemma_glob_hits_prefix(pattern@, views, i as int);
        }
    }
    Ok(hits)
}

proof fn lemma_glob_hits_prefix(pattern: Seq<char>, paths: Seq<Seq<char>>, i: int)
    requires
        0 <= i <= paths.len(),
    ensures
        glob_hits(pattern, paths.take(i)) =~= glob_hits(pattern, paths).take(glob_hits(pattern, paths.take(i)).len() as int),
        glob_hits(pattern, paths.take(i)).len() <= glob_hits(pattern, paths).len(),
    decreases paths.len() - i,
{
    if i < paths.len() {
        lemma_glob_hits_prefix(pattern, paths, i + 1);
        assert(paths.take(i + 1).drop_last() =~= paths.take(i));
    } else {
        assert(paths.take(i) =~= paths);
    }
}
} // verus!
