//! Web tools: cleaning fetched text, cutting it to size, collecting search
//! results, and refusing addresses of the local machine and network.

use vstd::prelude::*;
use crate::text::{
    chars_of, string_of, owned, trim_seq, lower_seq, trim_chars, lower_chars, chars_eq,
    starts_with, ends_with, chars_starts_with, chars_ends_with, words_of, words_seq, lines_of,
    lines_seq, join_seq, join_chars, views, take_chars, take_chars_exec, str_eq,
};

verus! {

/// The words of a line joined by single spaces.
pub open spec fn compact_line(line: Seq<char>) -> Seq<char> {
    join_seq(words_seq(line), " "@)
}

/// The lines kept so far, and whether the last kept line is a blank one.
pub open spec fn multiline_state(lines: Seq<Seq<char>>) -> (Seq<Seq<char>>, bool)
    decreases lines.len(),
{
    if lines.len() == 0 {
        (Seq::empty(), false)
    } else {
        let (out, blank) = multiline_state(lines.drop_last());
        let compact = compact_line(lines.last());
        if compact.len() == 0 {
            if !blank {
                (out.push(Seq::empty()), true)
            } else {
                (out, true)
            }
        } else {
            (out.push(compact), false)
        }
    }
}

/// A text with the whitespace of each line collapsed, runs of blank lines
/// reduced to one, and the whole trimmed.
pub open spec fn multiline_normalized(value: Seq<char>) -> Seq<char> {
    trim_seq(join_seq(multiline_state(lines_seq(value)).0, "\n"@))
}

/// Normalises fetched text (see `multiline_normalized`).
pub fn normalize_multiline_text(value: &str) -> (r: String)
    ensures
        r@ == multiline_normalized(value@),
{
    let cs = chars_of(value);
    let lines = lines_of(cs.as_slice());
    let ghost ls = lines_seq(value@);
    assert(views(lines@) =~= ls);
    let mut out: Vec<Vec<char>> = Vec::new();
    let mut blank_line = false;
    let sp = chars_of(" ");
    let mut i: usize = 0;
    while i < lines.len()
        invariant
            i <= lines.len(),
            sp@ == " "@,
            views(lines@) == ls,
            (views(out@), blank_line) == multiline_state(ls.take(i as int)),
        decreases lines.len() - i,
    {
        proof {
            assert(ls.take(i + 1).drop_last() =~= ls.take(i as int));
            assert(ls.take(i + 1).last() == lines@[i as int]@);
        }
        let words = words_of(lines[i].as_slice());
        assert(views(words@) =~= words_seq(lines@[i as int]@));
        let compact = join_chars(&words, sp.as_slice());
        if compact.len() == 0 {
            if !blank_line {
                let ghost before = views(out@);
                out.push(Vec::new());
                assert(views(out@) =~= before.push(Seq::<char>::empty()));
                blank_line = true;
            }
        } else {
            let ghost before = views(out@);
            out.push(compact);
            assert(views(out@) =~= before.push(compact_line(lines@[i as int]@)));
            blank_line = false;
        }
        i += 1;
    }
    assert(ls.take(lines.len() as int) =~= ls);
    let nl = chars_of("\n");
    let joined = join_chars(&out, nl.as_slice());
    let t = trim_chars(joined.as_slice());
    string_of(t.as_slice())
}

/// Keeps at most `max_chars` characters of a text, and tells whether it cut
/// anything.
pub fn truncate_by_chars(content: &str, max_chars: usize) -> (r: (String, bool))
    ensures
        r.1 == (content@.len() > max_chars),
        r.0@ == take_chars(content@, max_chars as nat),
{
    let cs = chars_of(content);
    if cs.len() > max_chars {
        let cut = take_chars_exec(cs.as_slice(), max_chars);
        (string_of(cut.as_slice()), true)
    } else {
        (owned(content), false)
    }
}

/// A search result.
#[derive(Debug, Clone)]
pub struct SearchResult {
    pub title: String,
    pub url: String,
    pub snippet: String,
}

/// Whether a list of results holds one with this URL.
pub open spec fn has_url(results: Seq<SearchResult>, url: Seq<char>) -> bool {
    exists|i: int| 0 <= i < results.len() && results[i].url@ == url
}

/// Whether a search result is kept: there is still room, its title and URL
/// (trimmed) are not blank, the URL is an `http://` or `https://` one, and
/// no result so far has it.
pub open spec fn result_accepted(results: Seq<SearchResult>, title: Seq<char>, url: Seq<char>, max_results: nat) -> bool {
    let t = trim_seq(title);
    let u = trim_seq(url);
    &&& results.len() < max_results
    &&& t.len() > 0
    &&& u.len() > 0
    &&& (starts_with(u, "http://"@) || starts_with(u, "https://"@))
    &&& !has_url(results, u)
}

/// The title, URL and snippet of a result.
pub open spec fn result_fields(r: SearchResult) -> (Seq<char>, Seq<char>, Seq<char>) {
    (r.title@, r.url@, r.snippet@)
}

/// The titles, URLs and snippets of results.
pub open spec fn results_view(rs: Seq<SearchResult>) -> Seq<(Seq<char>, Seq<char>, Seq<char>)> {
    rs.map_values(|r: SearchResult| result_fields(r))
}

/// Whether results (as titles, URLs and snippets) hold one with this URL.
pub open spec fn fields_have_url(rs: Seq<(Seq<char>, Seq<char>, Seq<char>)>, url: Seq<char>) -> bool {
    exists|i: int| 0 <= i < rs.len() && #[trigger] rs[i].1 == url
}

/// The results after a candidate is offered: it is added, trimmed, when
/// there is room, its title and URL are not blank, the URL is an
/// `http://` or `https://` one, and no result has it yet.
pub open spec fn pushed_result(
    rs: Seq<(Seq<char>, Seq<char>, Seq<char>)>,
    title: Seq<char>,
    url: Seq<char>,
    snippet: Seq<char>,
    max_results: nat,
) -> Seq<(Seq<char>, Seq<char>, Seq<char>)> {
    let t = trim_seq(title);
    let u = trim_seq(url);
    if rs.len() < max_results && t.len() > 0 && u.len() > 0 && (starts_with(u, "http://"@) || starts_with(u, "https://"@))
        && !fields_have_url(rs, u) {
        rs.push((t, u, trim_seq(snippet)))
    } else {
        rs
    }
}

/// Adds a search result (title, URL and snippet trimmed) when it is
/// accepted (see `result_accepted`); the results never hold a URL twice.
pub fn push_search_result(results: &mut Vec<SearchResult>, title: &str, url: &str, snippet: &str, max_results: usize)
    ensures
        results_view(final(results)@) == pushed_result(results_view(old(results)@), title@, url@, snippet@, max_results as nat),
        result_accepted(old(results)@, title@, url@, max_results as nat) ==> final(results)@.len() == old(results)@.len() + 1
            && final(results)@.drop_last() == old(results)@
            && final(results)@.last().title@ == trim_seq(title@)
            && final(results)@.last().url@ == trim_seq(url@)
            && final(results)@.last().snippet@ == trim_seq(snippet@),
        !result_accepted(old(results)@, title@, url@, max_results as nat) ==> final(results)@ == old(results)@,
{
    if results.len() >= max_results {
        return;
    }
    let tc = chars_of(title);
    let clean_title = trim_chars(tc.as_slice());
    let uc = chars_of(url);
    let clean_url = trim_chars(uc.as_slice());
    if clean_title.len() == 0 || clean_url.len() == 0 {
        return;
    }
    let http = chars_of("http://");
    let https = chars_of("https://");
    if !chars_starts_with(clean_url.as_slice(), http.as_slice()) && !chars_starts_with(clean_url.as_slice(), https.as_slice()) {
        return;
    }
    let u = string_of(clean_url.as_slice());
    let mut i: usize = 0;
    while i < results.len()
        invariant
            i <= results.len(),
            results@ == old(results)@,
            u@ == trim_seq(url@),
            forall|j: int| 0 <= j < i ==> results@[j].url@ != u@,
        decreases results.len() - i,
    {
        if str_eq(results[i].url.as_str(), u.as_str()) {
            assert(has_url(results@, trim_seq(url@)));
            assert(results_view(results@)[i as int].1 == u@);
            assert(fields_have_url(results_view(results@), u@));
            return;
        }
        i += 1;
    }
    let sc = chars_of(snippet);
    let clean_snippet = trim_chars(sc.as_slice());
    let ghost before = results@;
    results.push(SearchResult { title: string_of(clean_title.as_slice()), url: u, snippet: string_of(clean_snippet.as_slice()) });
    assert(results@.drop_last() =~= before);
    proof {
        let bv = results_view(before);
        let uu = trim_seq(url@);
        if fields_have_url(bv, uu) {
            let k = choose|k: int| 0 <= k < bv.len() && #[trigger] bv[k].1 == uu;
            assert(before[k].url@ == uu);
        }
        assert(results_view(results@) =~= bv.push((trim_seq(title@), uu, trim_seq(snippet@))));
    }
}

/// An IP address: four octets, or eight 16-bit segments.
#[derive(Debug, Clone, Copy)]
pub enum HostAddress {
    V4(u8, u8, u8, u8),
    V6(u16, u16, u16, u16, u16, u16, u16, u16),
}

/// Addresses of this machine or of a private network (as `Ipv4Addr` and
/// `Ipv6Addr` classify them): private, loopback, link-local, broadcast or
/// unspecified IPv4; loopback, unique-local, unspecified or multicast IPv6.
pub open spec fn is_local_address(a: HostAddress) -> bool {
    match a {
        HostAddress::V4(a0, a1, a2, a3) => {
            ||| a0 == 10
            ||| (a0 == 172 && 16 <= a1 <= 31)
            ||| (a0 == 192 && a1 == 168)
            ||| a0 == 127
            ||| (a0 == 169 && a1 == 254)
            ||| (a0 == 255 && a1 == 255 && a2 == 255 && a3 == 255)
            ||| (a0 == 0 && a1 == 0 && a2 == 0 && a3 == 0)
        },
        HostAddress::V6(s0, s1, s2, s3, s4, s5, s6, s7) => {
            let zero_head = s0 == 0 && s1 == 0 && s2 == 0 && s3 == 0 && s4 == 0 && s5 == 0 && s6 == 0;
            ||| (zero_head && s7 == 1)
            ||| (0xfc00 <= s0 <= 0xfdff)
            ||| (zero_head && s7 == 0)
            ||| s0 >= 0xff00
        },
    }
}

/// Whether a URL's host may not be fetched: there is none, it is
/// `localhost` (in any ASCII case) or a `.local` name, or it is an address
/// of this machine or a private network.
pub open spec fn forbidden_host(host: Option<Seq<char>>, address: Option<HostAddress>) -> bool {
    match host {
        None => true,
        Some(h) => lower_seq(h) == "localhost"@ || ends_with(h, ".local"@) || match address {
            Some(a) => is_local_address(a),
            None => false,
        },
    }
}

/// Refuses URLs that point at this machine or a private network (see
/// `forbidden_host`). `host` is the URL's host, and `address` the host read
/// as an IP address when it is one.
pub fn is_forbidden_loopback_host(host: Option<&str>, address: Option<HostAddress>) -> (r: bool)
    ensures
        r == forbidden_host(match host {
            Some(h) => Some(h@),
            None => None,
        }, address),
{
    let h = match host {
        Some(h) => h,
        None => {
            return true;
        },
    };
    let hc = chars_of(h);
    let lowered = lower_chars(hc.as_slice());
    let localhost = chars_of("localhost");
    let dot_local = chars_of(".local");
    if chars_eq(lowered.as_slice(), localhost.as_slice()) || chars_ends_with(hc.as_slice(), dot_local.as_slice()) {
        return true;
    }
    match address {
        Some(HostAddress::V4(a0, a1, a2, a3)) => {
            a0 == 10 || (a0 == 172 && 16 <= a1 && a1 <= 31) || (a0 == 192 && a1 == 168) || a0 == 127
                || (a0 == 169 && a1 == 254) || (a0 == 255 && a1 == 255 && a2 == 255 && a3 == 255)
                || (a0 == 0 && a1 == 0 && a2 == 0 && a3 == 0)
        },
        Some(HostAddress::V6(s0, s1, s2, s3, s4, s5, s6, s7)) => {
            let zero_head = s0 == 0 && s1 == 0 && s2 == 0 && s3 == 0 && s4 == 0 && s5 == 0 && s6 == 0;
            (zero_head && s7 == 1) || (0xfc00 <= s0 && s0 <= 0xfdff) || (zero_head && s7 == 0) || s0 >= 0xff00
        },
        None => false,
    }
}

} // verus!
