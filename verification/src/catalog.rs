//! The tool catalog: names of MCP tools, and reading the arguments that a
//! model wrote for a tool call, which are meant to be a JSON object but may
//! come wrapped in a code fence, in doubled braces, inside a JSON string or
//! surrounded by other text.

use vstd::prelude::*;
use crate::text::{
    chars_of, string_of, owned, push_all, trim_seq, trim_chars, chars_eq, starts_with, ends_with,
    chars_starts_with, chars_ends_with, lines_of, lines_seq, join_seq, join_chars, views,
    slice_chars, str_eq,
};

verus! {

/// The name under which an MCP server's tool is offered: `mcp__<server>__<tool>`.
pub fn build_tool_alias(server: &str, tool_name: &str) -> (r: String)
    ensures
        r@ == "mcp__"@ + server@ + "__"@ + tool_name@,
{
    let mut out = chars_of("mcp__");
    let s = chars_of(server);
    push_all(&mut out, s.as_slice());
    let sep = chars_of("__");
    push_all(&mut out, sep.as_slice());
    let t = chars_of(tool_name);
    push_all(&mut out, t.as_slice());
    string_of(out.as_slice())
}

/// Whether `serde_json::from_str::<Value>` reads the text as a JSON object.
pub uninterp spec fn json_text_is_object(text: Seq<char>) -> bool;

/// The content of the text when `serde_json::from_str::<Value>` reads it as
/// a JSON string.
pub uninterp spec fn json_text_string(text: Seq<char>) -> Option<Seq<char>>;

/// Parses the text with `serde_json::from_str::<serde_json::Value>` and
/// tells whether it is an object. Named `json_text_is_object`: it depends
/// on the text alone.
#[verifier::external_body]
fn json_is_object(text: &str) -> (r: bool)
    ensures
        r == json_text_is_object(text@),
{
    match serde_json::from_str::<serde_json::Value>(text) {
        Ok(serde_json::Value::Object(_)) => true,
        _ => false,
    }
}

/// Parses the text with `serde_json::from_str::<serde_json::Value>` and
/// gives the content when it is a string. Named `json_text_string`.
#[verifier::external_body]
fn json_as_string(text: &str) -> (r: Option<String>)
    ensures
        crate::text::opt_view(r) == json_text_string(text@),
{
    match serde_json::from_str::<serde_json::Value>(text) {
        Ok(serde_json::Value::String(s)) => Some(s),
        _ => None,
    }
}

/// A JSON object cut out of a text: the last `{` that starts one, with the
/// last `}` after it that ends one, trimmed, not empty and not the whole
/// text. `search_end` tries the closing positions from `e` down.
pub open spec fn search_end(t: Seq<char>, s: int, e: int) -> Option<Seq<char>>
    decreases e + 1,
{
    if e < 0 || e >= t.len() {
        None
    } else {
        let slice = trim_seq(t.subrange(s, e + 1));
        if t[e] == '}' && e > s && slice.len() > 0 && slice != t && json_text_is_object(slice) {
            Some(slice)
        } else {
            search_end(t, s, e - 1)
        }
    }
}

/// Tries the opening positions from `s` down (see `search_end`).
pub open spec fn search_start(t: Seq<char>, s: int) -> Option<Seq<char>>
    decreases s + 1,
{
    if s < 0 || s >= t.len() {
        None
    } else if t[s] == '{' {
        match search_end(t, s, t.len() - 1) {
            Some(x) => Some(x),
            None => search_start(t, s - 1),
        }
    } else {
        search_start(t, s - 1)
    }
}

/// The text inside a code fence: the lines after the opening fence, when
/// the last is a closing fence, without it, joined and trimmed.
pub open spec fn unfenced(t: Seq<char>) -> Option<Seq<char>> {
    let ls = lines_seq(t);
    if starts_with(t, "```"@) && ends_with(t, "```"@) && ls.len() >= 2 && trim_seq(ls.last()) == "```"@ {
        Some(trim_seq(join_seq(ls.subrange(1, ls.len() - 1), "\n"@)))
    } else {
        None
    }
}

/// A better candidate for the arguments of a tool call, when one can be
/// recovered: nothing for a blank text, the inside of a code fence, the
/// inside of doubled braces, or a JSON object found in the text.
pub open spec fn recovered_arguments(candidate: Seq<char>) -> Option<Seq<char>> {
    let t = trim_seq(candidate);
    if t.len() == 0 {
        Some(Seq::empty())
    } else if unfenced(t) is Some {
        unfenced(t)
    } else if starts_with(t, "{{"@) && ends_with(t, "}}"@) && t.len() >= 4 {
        Some(trim_seq(t.subrange(1, t.len() - 1)))
    } else {
        search_start(t, t.len() - 1)
    }
}

fn search_end_exec(t: &Vec<char>, s: usize) -> (r: Option<Vec<char>>)
    requires
        s < t.len(),
    ensures
        match search_end(t@, s as int, t@.len() - 1) {
            Some(x) => r matches Some(v) && v@ == x,
            None => r is None,
        },
{
    let mut e: usize = t.len();
    while e > 0
        invariant
            s < t.len(),
            e <= t.len(),
            search_end(t@, s as int, t@.len() - 1) == search_end(t@, s as int, e - 1),
        decreases e,
    {
        let k = e - 1;
        if t[k] == '}' && k > s {
            let piece = slice_chars(t.as_slice(), s, k + 1);
            let sliced = trim_chars(piece.as_slice());
            if sliced.len() > 0 && !chars_eq(sliced.as_slice(), t.as_slice()) {
                let text = string_of(sliced.as_slice());
                if json_is_object(text.as_str()) {
                    return Some(sliced);
                }
            }
        }
        e -= 1;
    }
    None
}

fn search_start_exec(t: &Vec<char>) -> (r: Option<Vec<char>>)
    ensures
        match search_start(t@, t@.len() - 1) {
            Some(x) => r matches Some(v) && v@ == x,
            None => r is None,
        },
{
    let mut s: usize = t.len();
    while s > 0
        invariant
            s <= t.len(),
            search_start(t@, t@.len() - 1) == search_start(t@, s - 1),
        decreases s,
    {
        let k = s - 1;
        if t[k] == '{' {
            match search_end_exec(t, k) {
                Some(x) => {
                    return Some(x);
                },
                None => {},
            }
        }
        s -= 1;
    }
    None
}

/// Recovers a candidate for a tool call's arguments (see
/// `recovered_arguments`).
pub fn recover_tool_arguments_candidate(candidate: &str) -> (r: Option<String>)
    ensures
        crate::text::opt_view(r) == recovered_arguments(candidate@),
{
    let cs = chars_of(candidate);
    let t = trim_chars(cs.as_slice());
    if t.len() == 0 {
        return Some(String::new());
    }
    let fence = chars_of("```");
    if chars_starts_with(t.as_slice(), fence.as_slice()) && chars_ends_with(t.as_slice(), fence.as_slice()) {
        let lines = lines_of(t.as_slice());
        let ghost ls = lines_seq(t@);
        assert(views(lines@) =~= ls);
        if lines.len() >= 2 {
            let last = trim_chars(lines[lines.len() - 1].as_slice());
            if chars_eq(last.as_slice(), fence.as_slice()) {
                let mut inner: Vec<Vec<char>> = Vec::new();
                let mut i: usize = 1;
                while i < lines.len() - 1
                    invariant
                        1 <= i <= lines.len() - 1,
                        lines.len() >= 2,
                        views(lines@) == ls,
                        views(inner@) =~= ls.subrange(1, i as int),
                    decreases lines.len() - 1 - i,
                {
                    let ghost before = views(inner@);
                    inner.push(crate::text::copy_chars(&lines[i]));
                    assert(views(inner@) =~= before.push(lines@[i as int]@));
                    i += 1;
                }
                let nl = chars_of("\n");
                let joined = join_chars(&inner, nl.as_slice());
                let out = trim_chars(joined.as_slice());
                return Some(string_of(out.as_slice()));
            }
        }
    }
    let open2 = chars_of("{{");
    let close2 = chars_of("}}");
    if chars_starts_with(t.as_slice(), open2.as_slice()) && chars_ends_with(t.as_slice(), close2.as_slice()) && t.len() >= 4 {
        let inside = slice_chars(t.as_slice(), 1, t.len() - 1);
        let out = trim_chars(inside.as_slice());
        return Some(string_of(out.as_slice()));
    }
    match search_start_exec(&t) {
        Some(x) => Some(string_of(x.as_slice())),
        None => None,
    }
}

/// What a tool call's arguments are read as: a JSON object (its text), no
/// arguments, or text that is not an object, kept as it came.
#[derive(Debug, Clone)]
pub enum ParsedArguments {
    Object(String),
    Empty,
    Raw(String),
}

/// Reads a candidate for at most `rounds` more rounds: an object is taken;
/// a JSON string is unwrapped; otherwise a recovered candidate is tried.
/// `None` means the arguments are kept raw.
pub open spec fn parse_rounds(candidate: Seq<char>, rounds: nat) -> Option<Option<Seq<char>>>
    decreases rounds,
{
    if rounds == 0 {
        None
    } else if json_text_is_object(candidate) {
        Some(Some(candidate))
    } else if json_text_string(candidate) is Some {
        let inner = trim_seq(json_text_string(candidate)->0);
        if inner.len() == 0 {
            Some(None)
        } else if inner == candidate {
            None
        } else {
            parse_rounds(inner, (rounds - 1) as nat)
        }
    } else {
        match recovered_arguments(candidate) {
            Some(r) => if r.len() == 0 {
                Some(None)
            } else if r == candidate {
                None
            } else {
                parse_rounds(r, (rounds - 1) as nat)
            },
            None => None,
        }
    }
}

/// How a tool call's arguments text is read: blank is no arguments;
/// otherwise up to six rounds of unwrapping and recovery (see
/// `parse_rounds`) look for a JSON object, and failing that the text is
/// kept raw.
pub open spec fn parsed_arguments_model(raw: Seq<char>) -> Option<Option<Seq<char>>> {
    let t = trim_seq(raw);
    if t.len() == 0 {
        Some(None)
    } else {
        parse_rounds(t, 6)
    }
}

/// Reads the arguments a model wrote for a tool call (see
/// `parsed_arguments_model`); `Object` holds the text of a JSON object.
pub fn parse_tool_arguments(raw: &str) -> (r: ParsedArguments)
    ensures
        match parsed_arguments_model(raw@) {
            Some(Some(text)) => r matches ParsedArguments::Object(o) && o@ == text,
            Some(None) => r is Empty,
            None => r matches ParsedArguments::Raw(s) && s@ == raw@,
        },
{
    let cs = chars_of(raw);
    let t = trim_chars(cs.as_slice());
    if t.len() == 0 {
        return ParsedArguments::Empty;
    }
    let mut candidate = string_of(t.as_slice());
    let mut rounds: usize = 6;
    while rounds > 0
        invariant
            rounds <= 6,
            parsed_arguments_model(raw@) == parse_rounds(candidate@, rounds as nat),
        ensures
            parsed_arguments_model(raw@) is None,
        decreases rounds,
    {
        if json_is_object(candidate.as_str()) {
            return ParsedArguments::Object(candidate);
        }
        match json_as_string(candidate.as_str()) {
            Some(inner) => {
                let ic = chars_of(inner.as_str());
                let it = trim_chars(ic.as_slice());
                if it.len() == 0 {
                    return ParsedArguments::Empty;
                }
                let next = string_of(it.as_slice());
                if str_eq(next.as_str(), candidate.as_str()) {
                    break;
                }
                candidate = next;
                rounds -= 1;
                continue;
            },
            None => {},
        }
        match recover_tool_arguments_candidate(candidate.as_str()) {
            Some(recovered) => {
                if recovered.as_str().is_empty() {
                    return ParsedArguments::Empty;
                }
                if str_eq(recovered.as_str(), candidate.as_str()) {
                    break;
                }
                candidate = recovered;
                rounds -= 1;
            },
            None => {
                break;
            },
        }
    }
    ParsedArguments::Raw(owned(raw))
}

/// The present values, trimmed, that are not blank, in order.
pub open spec fn present_trimmed(v: Seq<Option<String>>) -> Seq<Seq<char>>
    decreases v.len(),
{
    if v.len() == 0 {
        Seq::empty()
    } else {
        let rest = present_trimmed(v.drop_last());
        match crate::text::trimmed_present(v.last()) {
            Some(t) => rest.push(t),
            None => rest,
        }
    }
}

/// `base_k`: the name tried for the `k`th collision.
pub open spec fn numbered_alias(base: Seq<char>, k: nat) -> Seq<char> {
    base + "_"@ + crate::text::decimal_seq(k)
}

/// Whether `alias` is the name a tool gets when `used` are taken: its
/// base name when free, else `base_k` for the smallest `k` from 1 that is
/// free.
pub open spec fn is_first_free_alias(alias: Seq<char>, base: Seq<char>, used: Seq<Seq<char>>) -> bool {
    ||| (alias == base && !used.contains(base))
    ||| exists|k: nat| #![trigger numbered_alias(base, k)]
        k >= 1 && alias == numbered_alias(base, k) && used.contains(base) && !used.contains(numbered_alias(base, k))
            && (forall|j: nat| 1 <= j < k ==> used.contains(#[trigger] numbered_alias(base, j)))
}

proof fn lemma_decimal_long(n: nat)
    requires
        n >= 10,
    ensures
        crate::text::decimal_seq(n).len() >= 2,
    decreases n,
{
    assert(crate::text::decimal_seq(n) == crate::text::decimal_seq(n / 10).push(crate::text::digit_char(n % 10)));
    assert(crate::text::decimal_seq(n / 10).len() >= 1) by {
        if n / 10 >= 10 {
            lemma_decimal_long(n / 10);
        }
    }
}

/// Different numbers are written differently.
proof fn lemma_decimal_injective(a: nat, b: nat)
    requires
        crate::text::decimal_seq(a) == crate::text::decimal_seq(b),
    ensures
        a == b,
    decreases a,
{
    let da = crate::text::decimal_seq(a);
    let db = crate::text::decimal_seq(b);
    if a < 10 && b < 10 {
        assert(da[0] == crate::text::digit_char(a));
        assert(db[0] == crate::text::digit_char(b));
    } else if a < 10 {
        lemma_decimal_long(b);
    } else if b < 10 {
        lemma_decimal_long(a);
    } else {
        assert(da.last() == db.last());
        assert(da.drop_last() == db.drop_last());
        assert(crate::text::decimal_seq(a / 10) =~= da.drop_last());
        assert(crate::text::decimal_seq(b / 10) =~= db.drop_last());
        lemma_decimal_injective(a / 10, b / 10);
        assert(crate::text::digit_char(a % 10) == crate::text::digit_char(b % 10));
    }
}

proof fn lemma_numbered_alias_distinct(base: Seq<char>, a: nat, b: nat)
    requires
        a != b,
    ensures
        numbered_alias(base, a) != numbered_alias(base, b),
        numbered_alias(base, a) != base,
{
    let prefix = base + "_"@;
    if numbered_alias(base, a) == numbered_alias(base, b) {
        assert(crate::text::decimal_seq(a) =~= numbered_alias(base, a).skip(prefix.len() as int));
        assert(crate::text::decimal_seq(b) =~= numbered_alias(base, b).skip(prefix.len() as int));
        lemma_decimal_injective(a, b);
    }
    assert(numbered_alias(base, a).len() > base.len());
}

/// When `base` and `base_1` to `base_(k-1)` are all taken, at least `k`
/// names are taken.
proof fn lemma_taken_bound(base: Seq<char>, used: Seq<Seq<char>>, k: nat)
    requires
        k >= 1,
        used.contains(base),
        forall|j: nat| 1 <= j < k ==> used.contains(#[trigger] numbered_alias(base, j)),
    ensures
        k <= used.len(),
{
    let names = Seq::new(k, |j: int| if j == 0 { base } else { numbered_alias(base, j as nat) });
    assert forall|i: int, j: int| 0 <= i < j < names.len() implies names[i] != names[j] by {
        if i == 0 {
            lemma_numbered_alias_distinct(base, j as nat, (j + 1) as nat);
        } else {
            lemma_numbered_alias_distinct(base, i as nat, j as nat);
        }
    }
    assert(names.no_duplicates());
    names.unique_seq_to_set();
    assert forall|x: Seq<char>| names.to_set().contains(x) implies used.to_set().contains(x) by {
        let i = choose|i: int| 0 <= i < names.len() && names[i] == x;
        if i == 0 {
            assert(used.contains(base));
        } else {
            assert(used.contains(numbered_alias(base, i as nat)));
        }
    }
    vstd::seq_lib::seq_to_set_is_finite(used);
    vstd::set_lib::lemma_len_subset(names.to_set(), used.to_set());
    used.lemma_cardinality_of_set();
}

fn names_contain_text(names: &Vec<String>, n: &[char]) -> (r: bool)
    ensures
        r == crate::text::string_views(names@).contains(n@),
{
    let mut i: usize = 0;
    while i < names.len()
        invariant
            i <= names.len(),
            forall|j: int| 0 <= j < i ==> names@[j]@ != n@,
        decreases names.len() - i,
    {
        let c = chars_of(names[i].as_str());
        if chars_eq(c.as_slice(), n) {
            assert(crate::text::string_views(names@)[i as int] == n@);
            return true;
        }
        i += 1;
    }
    proof {
        if crate::text::string_views(names@).contains(n@) {
            let j = choose|j: int| 0 <= j < names@.len() && crate::text::string_views(names@)[j] == n@;
            assert(names@[j]@ == n@);
        }
    }
    false
}

fn first_free_alias(base: &Vec<char>, used: &Vec<String>) -> (r: Vec<char>)
    requires
        used@.len() < usize::MAX,
    ensures
        is_first_free_alias(r@, base@, crate::text::string_views(used@)),
{
    let ghost taken = crate::text::string_views(used@);
    if !names_contain_text(used, base.as_slice()) {
        return crate::text::copy_chars(base);
    }
    let mut k: usize = 1;
    let mut alias = crate::text::copy_chars(base);
    loop
        invariant
            k >= 1,
            taken == crate::text::string_views(used@),
            taken.contains(base@),
            taken.len() == used@.len(),
            used@.len() < usize::MAX,
            k <= used@.len() + 1,
            alias@ == (if k == 1 { base@ } else { numbered_alias(base@, (k - 1) as nat) }),
            forall|j: nat| 1 <= j < k - 1 ==> taken.contains(#[trigger] numbered_alias(base@, j)),
        decreases used@.len() + 1 - k,
    {
        if !names_contain_text(used, alias.as_slice()) {
            assert(is_first_free_alias(alias@, base@, taken));
            return alias;
        }
        proof {
            assert forall|j: nat| 1 <= j < k implies taken.contains(#[trigger] numbered_alias(base@, j)) by {
                if j == k - 1 {
                    assert(numbered_alias(base@, j) == alias@);
                }
            }
            lemma_taken_bound(base@, taken, k as nat);
        }
        let mut next = crate::text::copy_chars(base);
        let us = chars_of("_");
        push_all(&mut next, us.as_slice());
        crate::text::push_decimal(&mut next, k as u64);
        alias = next;
        k = k + 1;
    }
}

/// The names under which MCP tools are offered, in order: each tool gets
/// `mcp__<server>__<tool>`, or, when an earlier tool has that name, the
/// first free `mcp__<server>__<tool>_k` (k from 1). `tools` holds each
/// tool's server and name.
pub fn mcp_tool_aliases(tools: &Vec<(String, String)>) -> (r: Vec<String>)
    ensures
        r@.len() == tools@.len(),
        forall|i: int| 0 <= i < r@.len() ==> #[trigger] is_first_free_alias(
            r@[i]@,
            "mcp__"@ + tools@[i].0@ + "__"@ + tools@[i].1@,
            crate::text::string_views(r@).take(i),
        ),
{
    let mut out: Vec<String> = Vec::new();
    let mut i: usize = 0;
    while i < tools.len()
        invariant
            i <= tools.len(),
            out@.len() == i,
            forall|k: int| 0 <= k < out@.len() ==> #[trigger] is_first_free_alias(
                out@[k]@,
                "mcp__"@ + tools@[k].0@ + "__"@ + tools@[k].1@,
                crate::text::string_views(out@).take(k),
            ),
        decreases tools.len() - i,
    {
        let base = build_tool_alias(tools[i].0.as_str(), tools[i].1.as_str());
        let bc = chars_of(base.as_str());
        let alias = first_free_alias(&bc, &out);
        let ghost before = out@;
        out.push(string_of(alias.as_slice()));
        proof {
            assert(crate::text::string_views(out@).take(i as int) =~= crate::text::string_views(before));
            assert forall|k: int| 0 <= k < out@.len() implies #[trigger] is_first_free_alias(
                out@[k]@,
                "mcp__"@ + tools@[k].0@ + "__"@ + tools@[k].1@,
                crate::text::string_views(out@).take(k),
            ) by {
                if k < i {
                    assert(crate::text::string_views(out@).take(k) =~= crate::text::string_views(before).take(k));
                    assert(out@[k] == before[k]);
                }
            }
        }
        i += 1;
    }
    out
}

/// No two MCP tools are offered under the same name.
pub proof fn lemma_aliases_distinct(aliases: Seq<Seq<char>>, bases: Seq<Seq<char>>)
    requires
        aliases.len() == bases.len(),
        forall|i: int| 0 <= i < aliases.len() ==> #[trigger] is_first_free_alias(aliases[i], bases[i], aliases.take(i)),
    ensures
        forall|i: int, j: int| 0 <= i < j < aliases.len() ==> aliases[i] != aliases[j],
{
    assert forall|i: int, j: int| 0 <= i < j < aliases.len() implies aliases[i] != aliases[j] by {
        assert(is_first_free_alias(aliases[j], bases[j], aliases.take(j)));
        assert(aliases.take(j)[i] == aliases[i]);
        assert(aliases.take(j).contains(aliases[i]));
    }
}

/// The description an MCP tool is offered with: its own, or `MCP tool
/// <tool> from <server>` when it has none.
pub fn mcp_tool_description(description: &str, tool_name: &str, server: &str) -> (r: String)
    ensures
        r@ == if description@.len() == 0 {
            "MCP tool "@ + tool_name@ + " from "@ + server@
        } else {
            description@
        },
{
    if !description.is_empty() {
        return owned(description);
    }
    let mut out = chars_of("MCP tool ");
    let t = chars_of(tool_name);
    push_all(&mut out, t.as_slice());
    let f = chars_of(" from ");
    push_all(&mut out, f.as_slice());
    let s = chars_of(server);
    push_all(&mut out, s.as_slice());
    string_of(out.as_slice())
}


/// Which catalog name a model's tool call is looked up under, and the
/// arguments it is read with: a call of `bash`, the shell-command tool, is
/// read with the object recovered from its arguments when one can be (see
/// `recovered_arguments`); any other call as it came.
pub open spec fn call_target(name: Seq<char>, raw: Seq<char>) -> (Seq<char>, Seq<char>) {
    if name == "bash"@ {
        ("bash"@, match recovered_arguments(raw) {
            Some(r) => r,
            None => raw,
        })
    } else {
        (name, raw)
    }
}

/// The name and arguments a tool call is carried out with (see
/// `call_target`).
pub fn tool_call_target(name: &str, raw_arguments: &str) -> (r: (String, String))
    ensures
        (r.0@, r.1@) == call_target(name@, raw_arguments@),
{
    if str_eq(name, "bash") {
        let args = match recover_tool_arguments_candidate(raw_arguments) {
            Some(recovered) => recovered,
            None => owned(raw_arguments),
        };
        (owned("bash"), args)
    } else {
        (owned(name), owned(raw_arguments))
    }
}

/// The error for a tool name the catalog does not offer; a background run
/// says so.
pub fn tool_not_found_message(name: &str, background: bool) -> (r: String)
    ensures
        r@ == "Tool '"@ + name@ + (if background { "' not found in background session!"@ } else { "' not found"@ }),
{
    let mut out = chars_of("Tool '");
    let n = chars_of(name);
    push_all(&mut out, n.as_slice());
    let tail = if background { chars_of("' not found in background session!") } else { chars_of("' not found") };
    push_all(&mut out, tail.as_slice());
    string_of(out.as_slice())
}
} // verus!
