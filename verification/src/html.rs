//! Turning fetched HTML into plain text or Markdown, and reading search
//! results out of result pages. The regular expressions are those of the
//! `regex` crate; what is done with their matches is verified here.

use vstd::prelude::*;
use crate::text::{chars_of, string_of, owned, push_all, chars_occurs_at, occurs_at, trim_seq, trim};
use crate::web::{
    multiline_normalized, normalize_multiline_text, SearchResult, push_search_result, pushed_result, results_view,
};

verus! {

/// `str::replace` with a non-empty pattern: each occurrence, from the left
/// and not overlapping, replaced.
pub open spec fn replaced(s: Seq<char>, from: Seq<char>, to: Seq<char>) -> Seq<char>
    decreases s.len(),
{
    if from.len() == 0 || s.len() == 0 {
        s
    } else if occurs_at(s, from, 0) {
        to + replaced(s.skip(from.len() as int), from, to)
    } else {
        seq![s[0]] + replaced(s.drop_first(), from, to)
    }
}

/// `str::replace` over characters.
pub fn replace_chars(s: &[char], from: &[char], to: &[char]) -> (r: Vec<char>)
    requires
        from.len() > 0,
    ensures
        r@ == replaced(s@, from@, to@),
{
    let mut out: Vec<char> = Vec::new();
    let mut i: usize = 0;
    assert(s@.skip(0) =~= s@);
    while i < s.len()
        invariant
            i <= s.len(),
            from.len() > 0,
            out@ + replaced(s@.skip(i as int), from@, to@) == replaced(s@, from@, to@),
        decreases s.len() - i,
    {
        let ghost t = s@.skip(i as int);
        let ghost before = out@;
        if chars_occurs_at(s, from, i) {
            proof {
                assert(t.subrange(0, from@.len() as int) =~= s@.subrange(i as int, i + from@.len()));
                assert(occurs_at(t, from@, 0));
                assert(t.skip(from@.len() as int) =~= s@.skip(i + from@.len()));
            }
            push_all(&mut out, to);
            i += from.len();
            assert(out@ + replaced(s@.skip(i as int), from@, to@) =~= before + replaced(t, from@, to@));
        } else {
            proof {
                if occurs_at(t, from@, 0) {
                    assert(t.subrange(0, from@.len() as int) =~= s@.subrange(i as int, i + from@.len()));
                }
                assert(t.drop_first() =~= s@.skip(i + 1));
            }
            out.push(s[i]);
            i += 1;
            assert(out@ + replaced(s@.skip(i as int), from@, to@) =~= before + replaced(t, from@, to@));
        }
    }
    assert(s@.skip(s.len() as int) =~= Seq::<char>::empty());
    assert(out@ + Seq::<char>::empty() =~= out@);
    out
}

/// `str::replace` on strings.
pub fn replace_text(s: &str, from: &str, to: &str) -> (r: String)
    requires
        from@.len() > 0,
    ensures
        r@ == replaced(s@, from@, to@),
{
    let sc = chars_of(s);
    let fc = chars_of(from);
    let tc = chars_of(to);
    let out = replace_chars(sc.as_slice(), fc.as_slice(), tc.as_slice());
    string_of(out.as_slice())
}

/// The value of a digit: `0`-`9`, and for hexadecimal also `a`-`f` and
/// `A`-`F`.
pub open spec fn digit_value(c: char, hex: bool) -> Option<int> {
    if '0' <= c && c <= '9' {
        Some(c as int - 48)
    } else if hex && 'a' <= c && c <= 'f' {
        Some(c as int - 87)
    } else if hex && 'A' <= c && c <= 'F' {
        Some(c as int - 55)
    } else {
        None
    }
}

/// The number written by digits (decimal, or hexadecimal).
pub open spec fn digits_number(d: Seq<char>, hex: bool) -> Option<int>
    decreases d.len(),
{
    if d.len() == 0 {
        Some(0)
    } else {
        match (digits_number(d.drop_last(), hex), digit_value(d.last(), hex)) {
            (Some(a), Some(b)) => Some(a * (if hex { 16int } else { 10int }) + b),
            _ => None,
        }
    }
}

/// What `str::parse::<u32>` (or `u32::from_str_radix(_, 16)`) reads: an
/// optional `+`, then one or more digits, for a value that fits.
pub open spec fn code_number(d: Seq<char>, hex: bool) -> Option<int> {
    let body = if d.len() > 0 && d[0] == '+' { d.drop_first() } else { d };
    if body.len() == 0 {
        None
    } else {
        match digits_number(body, hex) {
            Some(v) => if v <= u32::MAX { Some(v) } else { None },
            None => None,
        }
    }
}

/// Unicode scalar values: the codes `char::from_u32` accepts.
pub open spec fn is_scalar(v: int) -> bool {
    (0 <= v && v < 0xD800) || (0xE000 <= v && v <= 0x10FFFF)
}

/// The character a numeric entity stands for, or a space when its code is
/// not one.
pub open spec fn entity_char(d: Seq<char>, hex: bool) -> char {
    match code_number(d, hex) {
        Some(v) => if is_scalar(v) { v as char } else { ' ' },
        None => ' ',
    }
}

/// `char::from_u32`. Its documentation: the character with this code,
/// or `None` when the code is not a Unicode scalar value.
#[verifier::external_body]
fn char_from_code(code: u32) -> (r: Option<char>)
    ensures
        is_scalar(code as int) ==> r == Some(code as char),
        !is_scalar(code as int) ==> r is None,
{
    char::from_u32(code)
}

proof fn lemma_digits_number_bounds(d: Seq<char>, hex: bool)
    ensures
        digits_number(d, hex) matches Some(v) ==> v >= 0,
    decreases d.len(),
{
    if d.len() > 0 {
        lemma_digits_number_bounds(d.drop_last(), hex);
    }
}

proof fn lemma_digits_number_prefix(d: Seq<char>, hex: bool, i: int)
    requires
        0 <= i <= d.len(),
        digits_number(d, hex) is Some,
    ensures
        digits_number(d.take(i), hex) matches Some(a) && a <= digits_number(d, hex)->0,
    decreases d.len() - i,
{
    if i < d.len() {
        lemma_digits_number_prefix(d, hex, i + 1);
        assert(d.take(i + 1).drop_last() =~= d.take(i));
        lemma_digits_number_bounds(d.take(i), hex);
    } else {
        assert(d.take(i) =~= d);
    }
}

/// Reads the code of a numeric entity (see `code_number`).
fn parse_code(d: &[char], hex: bool) -> (r: Option<u32>)
    ensures
        match code_number(d@, hex) {
            Some(v) => r matches Some(c) && c as int == v,
            None => r is None,
        },
{
    let start: usize = if d.len() > 0 && d[0] == '+' { 1 } else { 0 };
    let ghost body = if d@.len() > 0 && d@[0] == '+' { d@.drop_first() } else { d@ };
    assert(body =~= d@.skip(start as int));
    if start == d.len() {
        return None;
    }
    let base: u64 = if hex { 16 } else { 10 };
    let mut acc: u64 = 0;
    let mut i: usize = start;
    assert(body.take(0) =~= Seq::<char>::empty());
    while i < d.len()
        invariant
            start <= i <= d.len(),
            start < d.len(),
            body == d@.skip(start as int),
            body == (if d@.len() > 0 && d@[0] == '+' { d@.drop_first() } else { d@ }),
            base == (if hex { 16u64 } else { 10u64 }),
            digits_number(body.take(i - start), hex) == Some(acc as int),
            acc <= u32::MAX,
        decreases d.len() - i,
    {
        let c = d[i];
        let v: u64 = if '0' <= c && c <= '9' {
            (c as u32 - 48) as u64
        } else if hex && 'a' <= c && c <= 'f' {
            (c as u32 - 87) as u64
        } else if hex && 'A' <= c && c <= 'F' {
            (c as u32 - 55) as u64
        } else {
            proof {
                let t = body.take(i - start + 1);
                assert(t.drop_last() =~= body.take(i - start));
                assert(t.last() == c);
                assert(digits_number(t, hex) is None);
                if digits_number(body, hex) is Some {
                    lemma_digits_number_prefix(body, hex, i - start + 1);
                }
            }
            return None;
        };
        proof {
            let t = body.take(i - start + 1);
            assert(t.drop_last() =~= body.take(i - start));
            assert(t.last() == c);
            assert(digit_value(c, hex) == Some(v as int));
            assert(acc * base <= 0xFFFF_FFFF * 16) by (nonlinear_arith)
                requires
                    acc <= 0xFFFF_FFFF,
                    base <= 16;
        }
        acc = acc * base + v;
        i += 1;
        if acc > 0xFFFF_FFFF {
            proof {
                if digits_number(body, hex) is Some {
                    lemma_digits_number_prefix(body, hex, i - start);
                }
            }
            return None;
        }
    }
    assert(body.take(i - start) =~= body);
    Some(acc as u32)
}

/// The text a numeric entity is replaced by: the character whose code its
/// digits write (see `entity_char`).
pub fn entity_code_text(digits: &str, hex: bool) -> (r: String)
    ensures
        r@ == seq![entity_char(digits@, hex)],
{
    let d = chars_of(digits);
    let c = match parse_code(d.as_slice(), hex) {
        Some(code) => {
            proof {
                let v = code_number(digits@, hex)->0;
                assert(code as int == v);
            }
            match char_from_code(code) {
                Some(c) => c,
                None => ' ',
            }
        },
        None => ' ',
    };
    assert(c == entity_char(digits@, hex));
    let mut out: Vec<char> = Vec::new();
    out.push(c);
    assert(out@ =~= seq![c]);
    string_of(out.as_slice())
}

/// The text `Regex::new(pattern)` and then `Regex::replace_all(text,
/// replacement)` give.
pub uninterp spec fn regex_replaced(pattern: Seq<char>, text: Seq<char>, replacement: Seq<char>) -> Seq<char>;

/// Compiles `pattern` with `regex::Regex::new` and replaces every match in
/// `text` with `Regex::replace_all`; a pattern that does not compile
/// leaves the text as it is. The result depends on the three texts alone:
/// it is named `regex_replaced`.
#[verifier::external_body]
fn regex_replace_all(pattern: &str, text: &str, replacement: &str) -> (r: String)
    ensures
        r@ == regex_replaced(pattern@, text@, replacement@),
{
    match regex::Regex::new(pattern) {
        Ok(re) => re.replace_all(text, replacement).into_owned(),
        Err(_) => text.to_string(),
    }
}

/// The text `Regex::replace_all` gives when each match is replaced by
/// `entity_code_text` of its first group.
pub uninterp spec fn regex_codes_replaced(pattern: Seq<char>, text: Seq<char>, hex: bool) -> Seq<char>;

/// Compiles `pattern` with `regex::Regex::new` and replaces every match in
/// `text`, with `Regex::replace_all`, by the character its first group
/// writes (`entity_code_text`); a pattern that does not compile leaves the
/// text as it is. The result depends on the arguments alone: it is named
/// `regex_codes_replaced`.
#[verifier::external_body]
fn regex_replace_codes(pattern: &str, text: &str, hex: bool) -> (r: String)
    ensures
        r@ == regex_codes_replaced(pattern@, text@, hex),
{
    match regex::Regex::new(pattern) {
        Ok(re) => re
            .replace_all(text, |caps: &regex::Captures| entity_code_text(caps.get(1).map_or("", |m| m.as_str()), hex))
            .into_owned(),
        Err(_) => text.to_string(),
    }
}

pub open spec fn decimal_entity_pattern() -> Seq<char> {
    r"&#(\d+);"@
}

pub open spec fn hex_entity_pattern() -> Seq<char> {
    r"&#x([0-9a-fA-F]+);"@
}

/// The named entities `&amp;`, `&lt;`, `&gt;`, `&quot;`, `&#39;` and
/// `&nbsp;`, replaced in this order.
pub open spec fn named_entities_replaced(v: Seq<char>) -> Seq<char> {
    let a = replaced(v, "&amp;"@, "&"@);
    let b = replaced(a, "&lt;"@, "<"@);
    let c = replaced(b, "&gt;"@, ">"@);
    let d = replaced(c, "&quot;"@, "\""@);
    let e = replaced(d, "&#39;"@, "'"@);
    replaced(e, "&nbsp;"@, " "@)
}

/// A text with the named entities replaced, then decimal and then
/// hexadecimal numeric entities.
pub open spec fn html_entities_decoded(v: Seq<char>) -> Seq<char> {
    regex_codes_replaced(
        hex_entity_pattern(),
        regex_codes_replaced(decimal_entity_pattern(), named_entities_replaced(v), false),
        true,
    )
}

/// Decodes the basic HTML entities (see `html_entities_decoded`).
pub fn decode_basic_html_entities(value: &str) -> (r: String)
    ensures
        r@ == html_entities_decoded(value@),
{
    proof {
        reveal_strlit("&amp;");
        reveal_strlit("&lt;");
        reveal_strlit("&gt;");
        reveal_strlit("&quot;");
        reveal_strlit("&#39;");
        reveal_strlit("&nbsp;");
    }
    let a = replace_text(value, "&amp;", "&");
    let b = replace_text(a.as_str(), "&lt;", "<");
    let c = replace_text(b.as_str(), "&gt;", ">");
    let d = replace_text(c.as_str(), "&quot;", "\"");
    let e = replace_text(d.as_str(), "&#39;", "'");
    let f = replace_text(e.as_str(), "&nbsp;", " ");
    let g = regex_replace_codes(r"&#(\d+);", f.as_str(), false);
    regex_replace_codes(r"&#x([0-9a-fA-F]+);", g.as_str(), true)
}

pub open spec fn tag_pattern() -> Seq<char> {
    r"(?is)<[^>]+>"@
}

/// A fragment of HTML as text: tags become spaces, entities are decoded,
/// and the lines are normalised.
pub open spec fn cleaned_fragment(f: Seq<char>) -> Seq<char> {
    multiline_normalized(html_entities_decoded(regex_replaced(tag_pattern(), f, " "@)))
}

/// Turns a fragment of HTML into text (see `cleaned_fragment`).
pub fn clean_html_fragment(fragment: &str) -> (r: String)
    ensures
        r@ == cleaned_fragment(fragment@),
{
    let stripped = regex_replace_all(r"(?is)<[^>]+>", fragment, " ");
    let decoded = decode_basic_html_entities(stripped.as_str());
    normalize_multiline_text(decoded.as_str())
}

/// Each pattern, in order, replaced everywhere by `rep`.
pub open spec fn replaced_each(patterns: Seq<Seq<char>>, text: Seq<char>, rep: Seq<char>) -> Seq<char>
    decreases patterns.len(),
{
    if patterns.len() == 0 {
        text
    } else {
        regex_replaced(patterns.last(), replaced_each(patterns.drop_last(), text, rep), rep)
    }
}

/// The views of string slices.
pub open spec fn str_views(v: Seq<&str>) -> Seq<Seq<char>> {
    v.map_values(|p: &str| p@)
}

/// Replaces each pattern in turn (see `replaced_each`).
fn replace_each(patterns: &Vec<&str>, text: String, rep: &str) -> (r: String)
    ensures
        r@ == replaced_each(str_views(patterns@), text@, rep@),
{
    let mut value = text;
    let mut i: usize = 0;
    while i < patterns.len()
        invariant
            i <= patterns.len(),
            value@ == replaced_each(str_views(patterns@).take(i as int), text@, rep@),
        decreases patterns.len() - i,
    {
        proof {
            let ps = str_views(patterns@);
            assert(ps.take(i + 1).drop_last() =~= ps.take(i as int));
            assert(ps.take(i + 1).last() == patterns@[i as int]@);
        }
        value = regex_replace_all(patterns[i], value.as_str(), rep);
        i += 1;
    }
    assert(str_views(patterns@).take(patterns.len() as int) =~= str_views(patterns@));
    value
}

/// Script, style and noscript blocks.
pub open spec fn hidden_block_patterns() -> Seq<Seq<char>> {
    seq![
        r"(?is)<script[^>]*>.*?</script>"@,
        r"(?is)<style[^>]*>.*?</style>"@,
        r"(?is)<noscript[^>]*>.*?</noscript>"@,
    ]
}

/// Tags after which plain text starts a new line.
pub open spec fn text_break_patterns() -> Seq<Seq<char>> {
    seq![
        r"(?is)<br\s*/?>"@,
        r"(?is)</p>"@,
        r"(?is)</div>"@,
        r"(?is)</li>"@,
        r"(?is)</h[1-6]>"@,
        r"(?is)</tr>"@,
    ]
}

/// Tags after which Markdown starts a new line.
pub open spec fn markdown_break_patterns() -> Seq<Seq<char>> {
    seq![r"(?is)<br\s*/?>"@, r"(?is)</p>"@, r"(?is)</div>"@, r"(?is)</li>"@]
}

fn hidden_blocks() -> (r: Vec<&'static str>)
    ensures
        str_views(r@) == hidden_block_patterns(),
{
    let v = vec![
        r"(?is)<script[^>]*>.*?</script>",
        r"(?is)<style[^>]*>.*?</style>",
        r"(?is)<noscript[^>]*>.*?</noscript>",
    ];
    assert(str_views(v@) =~= hidden_block_patterns());
    v
}

/// A page as plain text: script, style and noscript blocks become spaces,
/// line-ending tags become line breaks, and the rest is cleaned as a
/// fragment.
pub open spec fn html_text(html: Seq<char>) -> Seq<char> {
    cleaned_fragment(replaced_each(text_break_patterns(), replaced_each(hidden_block_patterns(), html, " "@), "\n"@))
}

/// How a page becomes text, step by step: after script, style and noscript
/// blocks have become spaces, every `<br>`, then every `</p>`, `</div>` and
/// `</li>`, then every closing heading tag `</h1>` to `</h6>`, then every
/// `</tr>` is replaced by a line break, and what results is cleaned as a
/// fragment. So a closing heading tag ends a line, as a closing paragraph
/// or table row does.
pub proof fn lemma_page_text_breaks_lines(html: Seq<char>)
    ensures
        ({
            let no_hidden = regex_replaced(
                r"(?is)<noscript[^>]*>.*?</noscript>"@,
                regex_replaced(
                    r"(?is)<style[^>]*>.*?</style>"@,
                    regex_replaced(r"(?is)<script[^>]*>.*?</script>"@, html, " "@),
                    " "@,
                ),
                " "@,
            );
            let nl = "\n"@;
            let broken = regex_replaced(
                r"(?is)</li>"@,
                regex_replaced(
                    r"(?is)</div>"@,
                    regex_replaced(r"(?is)</p>"@, regex_replaced(r"(?is)<br\s*/?>"@, no_hidden, nl), nl),
                    nl,
                ),
                nl,
            );
            html_text(html) == cleaned_fragment(
                regex_replaced(r"(?is)</tr>"@, regex_replaced(r"(?is)</h[1-6]>"@, broken, nl), nl),
            )
        }),
{
    reveal_with_fuel(replaced_each, 7);
    let h = hidden_block_patterns();
    assert(h.drop_last() =~= seq![r"(?is)<script[^>]*>.*?</script>"@, r"(?is)<style[^>]*>.*?</style>"@]);
    assert(h.drop_last().drop_last() =~= seq![r"(?is)<script[^>]*>.*?</script>"@]);
    assert(h.drop_last().drop_last().drop_last() =~= Seq::<Seq<char>>::empty());
    let b = text_break_patterns();
    let b1 = b.drop_last();
    let b2 = b1.drop_last();
    let b3 = b2.drop_last();
    let b4 = b3.drop_last();
    let b5 = b4.drop_last();
    assert(b1 =~= seq![r"(?is)<br\s*/?>"@, r"(?is)</p>"@, r"(?is)</div>"@, r"(?is)</li>"@, r"(?is)</h[1-6]>"@]);
    assert(b2 =~= seq![r"(?is)<br\s*/?>"@, r"(?is)</p>"@, r"(?is)</div>"@, r"(?is)</li>"@]);
    assert(b3 =~= seq![r"(?is)<br\s*/?>"@, r"(?is)</p>"@, r"(?is)</div>"@]);
    assert(b4 =~= seq![r"(?is)<br\s*/?>"@, r"(?is)</p>"@]);
    assert(b5 =~= seq![r"(?is)<br\s*/?>"@]);
    assert(b5.drop_last() =~= Seq::<Seq<char>>::empty());
}

/// Turns a page into plain text (see `html_text`).
pub fn html_to_text_basic(html: &str) -> (r: String)
    ensures
        r@ == html_text(html@),
{
    let hidden = hidden_blocks();
    let value = replace_each(&hidden, owned(html), " ");
    let breaks = vec![
        r"(?is)<br\s*/?>",
        r"(?is)</p>",
        r"(?is)</div>",
        r"(?is)</li>",
        r"(?is)</h[1-6]>",
        r"(?is)</tr>",
    ];
    assert(str_views(breaks@) =~= text_break_patterns());
    let value = replace_each(&breaks, value, "\n");
    clean_html_fragment(value.as_str())
}

/// A link in Markdown: `[text](href)`, or the address after a space when
/// the text is empty once cleaned.
pub open spec fn anchor_text(href: Seq<char>, text: Seq<char>) -> Seq<char> {
    let clean = cleaned_fragment(text);
    if clean.len() == 0 {
        " "@ + href
    } else {
        "["@ + clean + "]("@ + href + ")"@
    }
}

/// Writes a link in Markdown (see `anchor_text`).
pub fn anchor_markdown(href: &str, text: &str) -> (r: String)
    ensures
        r@ == anchor_text(href@, text@),
{
    let clean = clean_html_fragment(text);
    let h = chars_of(href);
    if clean.as_str().is_empty() {
        let mut out = chars_of(" ");
        push_all(&mut out, h.as_slice());
        return string_of(out.as_slice());
    }
    let mut out = chars_of("[");
    let cc = chars_of(clean.as_str());
    push_all(&mut out, cc.as_slice());
    let mid = chars_of("](");
    push_all(&mut out, mid.as_slice());
    push_all(&mut out, h.as_slice());
    let close = chars_of(")");
    push_all(&mut out, close.as_slice());
    string_of(out.as_slice())
}

/// The text `Regex::replace_all` gives when each match is replaced by
/// `anchor_markdown` of its first and second groups.
pub uninterp spec fn regex_anchors_replaced(pattern: Seq<char>, text: Seq<char>) -> Seq<char>;

/// Compiles `pattern` with `regex::Regex::new` and replaces every match in
/// `text`, with `Regex::replace_all`, by the Markdown link that its first
/// group (the address) and second group (the text) make
/// (`anchor_markdown`); a pattern that does not compile leaves the text as
/// it is. The result depends on the arguments alone: it is named
/// `regex_anchors_replaced`.
#[verifier::external_body]
fn regex_replace_anchors(pattern: &str, text: &str) -> (r: String)
    ensures
        r@ == regex_anchors_replaced(pattern@, text@),
{
    match regex::Regex::new(pattern) {
        Ok(re) => re
            .replace_all(text, |caps: &regex::Captures| {
                anchor_markdown(caps.get(1).map_or("", |m| m.as_str()), caps.get(2).map_or("", |m| m.as_str()))
            })
            .into_owned(),
        Err(_) => text.to_string(),
    }
}

pub open spec fn anchor_pattern() -> Seq<char> {
    r#"(?is)<a[^>]*href=["']([^"']+)["'][^>]*>(.*?)</a>"#@
}

/// A page as Markdown: script, style and noscript blocks become spaces,
/// links become Markdown links, line-ending tags become line breaks, and
/// the rest is cleaned as a fragment.
pub open spec fn html_markdown(html: Seq<char>) -> Seq<char> {
    let hidden = replaced_each(hidden_block_patterns(), html, " "@);
    cleaned_fragment(replaced_each(markdown_break_patterns(), regex_anchors_replaced(anchor_pattern(), hidden), "\n"@))
}

/// Turns a page into Markdown (see `html_markdown`).
pub fn html_to_markdown_basic(html: &str) -> (r: String)
    ensures
        r@ == html_markdown(html@),
{
    let hidden = hidden_blocks();
    let value = replace_each(&hidden, owned(html), " ");
    let value = regex_replace_anchors(r#"(?is)<a[^>]*href=["']([^"']+)["'][^>]*>(.*?)</a>"#, value.as_str());
    let breaks = vec![r"(?is)<br\s*/?>", r"(?is)</p>", r"(?is)</div>", r"(?is)</li>"];
    assert(str_views(breaks@) =~= markdown_break_patterns());
    let value = replace_each(&breaks, value, "\n");
    clean_html_fragment(value.as_str())
}

/// A title, an address and a snippet.
pub type ResultFields = (Seq<char>, Seq<char>, Seq<char>);

/// The results after each candidate, in order, is offered to `start`
/// (see `pushed_result`); `None` offers nothing.
pub open spec fn offer_all(start: Seq<ResultFields>, cands: Seq<Option<ResultFields>>, max_results: nat) -> Seq<ResultFields>
    decreases cands.len(),
{
    if cands.len() == 0 {
        start
    } else {
        let prev = offer_all(start, cands.drop_last(), max_results);
        match cands.last() {
            Some(c) => pushed_result(prev, c.0, c.1, c.2, max_results),
            None => prev,
        }
    }
}

/// Once the results are full, the candidates left change nothing.
proof fn lemma_offer_saturated(start: Seq<ResultFields>, cands: Seq<Option<ResultFields>>, max_results: nat, k: int)
    requires
        0 <= k <= cands.len(),
        offer_all(start, cands.take(k), max_results).len() >= max_results,
    ensures
        offer_all(start, cands, max_results) == offer_all(start, cands.take(k), max_results),
    decreases cands.len() - k,
{
    if k < cands.len() {
        assert(cands.take(k + 1).drop_last() =~= cands.take(k));
        lemma_offer_saturated(start, cands, max_results, k + 1);
    } else {
        assert(cands.take(k) =~= cands);
    }
}

/// Offering two lists of candidates is offering the first, then the second.
proof fn lemma_offer_concat(start: Seq<ResultFields>, a: Seq<Option<ResultFields>>, b: Seq<Option<ResultFields>>, max_results: nat)
    ensures
        offer_all(start, a + b, max_results) == offer_all(offer_all(start, a, max_results), b, max_results),
    decreases b.len(),
{
    if b.len() == 0 {
        assert(a + b =~= a);
    } else {
        assert((a + b).drop_last() =~= a + b.drop_last());
        lemma_offer_concat(start, a, b.drop_last(), max_results);
    }
}

/// The next step of offering a prefix of candidates.
proof fn lemma_offer_step(start: Seq<ResultFields>, cands: Seq<Option<ResultFields>>, max_results: nat, i: int)
    requires
        0 <= i < cands.len(),
    ensures
        offer_all(start, cands.take(i + 1), max_results) == match cands[i] {
            Some(c) => pushed_result(offer_all(start, cands.take(i), max_results), c.0, c.1, c.2, max_results),
            None => offer_all(start, cands.take(i), max_results),
        },
{
    assert(cands.take(i + 1).drop_last() =~= cands.take(i));
    assert(cands.take(i + 1).last() == cands[i]);
}

/// The view of optional strings.
pub open spec fn opt_views(v: Seq<Option<String>>) -> Seq<Option<Seq<char>>> {
    v.map_values(|o: Option<String>| crate::text::opt_view(o))
}

/// The view of the groups of matches.
pub open spec fn groups_view(v: Seq<Vec<Option<String>>>) -> Seq<Seq<Option<Seq<char>>>> {
    v.map_values(|g: Vec<Option<String>>| opt_views(g@))
}

/// The groups of each match of `pattern` in `text`, in order, as
/// `Regex::captures_iter` gives them: the whole match, then each group,
/// `None` for a group that took no part.
pub uninterp spec fn regex_capture_groups(pattern: Seq<char>, text: Seq<char>) -> Seq<Seq<Option<Seq<char>>>>;

/// Compiles `pattern` with `regex::Regex::new` and collects the groups of
/// each match with `Regex::captures_iter`; a pattern that does not compile
/// matches nothing. The result depends on the two texts alone: it is
/// named `regex_capture_groups`.
#[verifier::external_body]
fn regex_captures_all(pattern: &str, text: &str) -> (r: Vec<Vec<Option<String>>>)
    ensures
        groups_view(r@) == regex_capture_groups(pattern@, text@),
{
    match regex::Regex::new(pattern) {
        Ok(re) => re
            .captures_iter(text)
            .map(|caps| caps.iter().map(|m| m.map(|m| m.as_str().to_string())).collect())
            .collect(),
        Err(_) => Vec::new(),
    }
}

/// The groups of the first match of `pattern` in `text`, as
/// `Regex::captures` gives them, or `None` when there is none.
pub uninterp spec fn regex_first_groups(pattern: Seq<char>, text: Seq<char>) -> Option<Seq<Option<Seq<char>>>>;

/// Compiles `pattern` with `regex::Regex::new` and takes the groups of its
/// first match with `Regex::captures`; a pattern that does not compile
/// matches nothing. The result depends on the two texts alone: it is
/// named `regex_first_groups`.
#[verifier::external_body]
pub(crate) fn regex_captures_first(pattern: &str, text: &str) -> (r: Option<Vec<Option<String>>>)
    ensures
        match r {
            Some(g) => regex_first_groups(pattern@, text@) == Some(opt_views(g@)),
            None => regex_first_groups(pattern@, text@) is None,
        },
{
    match regex::Regex::new(pattern) {
        Ok(re) => re
            .captures(text)
            .map(|caps| caps.iter().map(|m| m.map(|m| m.as_str().to_string())).collect()),
        Err(_) => None,
    }
}

/// Group `i` of a match, if it took part.
pub open spec fn group_at(m: Seq<Option<Seq<char>>>, i: int) -> Option<Seq<char>> {
    if 0 <= i < m.len() {
        m[i]
    } else {
        None
    }
}

/// Group `i` of a match, or the empty text.
pub open spec fn group_or_empty(m: Seq<Option<Seq<char>>>, i: int) -> Seq<char> {
    match group_at(m, i) {
        Some(t) => t,
        None => Seq::empty(),
    }
}

/// Group `i` of a match (`Captures::get(i)`).
pub(crate) fn group(m: &Vec<Option<String>>, i: usize) -> (r: Option<String>)
    ensures
        crate::text::opt_view(r) == group_at(opt_views(m@), i as int),
{
    if i < m.len() {
        match &m[i] {
            Some(t) => Some(t.clone()),
            None => None,
        }
    } else {
        None
    }
}

/// Group `i` of a match, or the empty text.
pub(crate) fn group_text(m: &Vec<Option<String>>, i: usize) -> (r: String)
    ensures
        r@ == group_or_empty(opt_views(m@), i as int),
{
    match group(m, i) {
        Some(t) => t,
        None => String::new(),
    }
}

pub open spec fn bing_item_pattern() -> Seq<char> {
    r#"(?is)<li[^>]*class="[^"]*\bb_algo\b[^"]*"[^>]*>(.*?)</li>"#@
}

pub open spec fn bing_link_pattern() -> Seq<char> {
    r#"(?is)<h2[^>]*>\s*<a[^>]*href="([^"]+)"[^>]*>(.*?)</a>"#@
}

pub open spec fn paragraph_pattern() -> Seq<char> {
    r#"(?is)<p[^>]*>(.*?)</p>"#@
}

/// The text of group 1 of the first match of `pattern` in `block`, or the
/// empty text.
pub open spec fn first_group_text(pattern: Seq<char>, block: Seq<char>) -> Seq<char> {
    match regex_first_groups(pattern, block) {
        Some(g) => group_or_empty(g, 1),
        None => Seq::empty(),
    }
}

/// What a Bing result block offers: nothing without a heading link; else
/// the link's text cleaned, its address decoded, and the first paragraph
/// cleaned.
pub open spec fn bing_candidate(m: Seq<Option<Seq<char>>>) -> Option<ResultFields> {
    let block = group_or_empty(m, 1);
    match regex_first_groups(bing_link_pattern(), block) {
        None => None,
        Some(link) => Some((
            cleaned_fragment(group_or_empty(link, 2)),
            html_entities_decoded(group_or_empty(link, 1)),
            cleaned_fragment(first_group_text(paragraph_pattern(), block)),
        )),
    }
}

fn first_group_of(pattern: &str, block: &str) -> (r: String)
    ensures
        r@ == first_group_text(pattern@, block@),
{
    match regex_captures_first(pattern, block) {
        Some(g) => group_text(&g, 1),
        None => String::new(),
    }
}

/// The results of a Bing result page: each result block offers its
/// candidate (see `bing_candidate`), at most `max_results` kept.
pub fn parse_bing_html_results(html: &str, max_results: usize) -> (r: Vec<SearchResult>)
    ensures
        results_view(r@) == offer_all(
            Seq::empty(),
            regex_capture_groups(bing_item_pattern(), html@).map_values(|m: Seq<Option<Seq<char>>>| bing_candidate(m)),
            max_results as nat,
        ),
{
    let mut results: Vec<SearchResult> = Vec::new();
    let items = regex_captures_all(r#"(?is)<li[^>]*class="[^"]*\bb_algo\b[^"]*"[^>]*>(.*?)</li>"#, html);
    let ghost cands = groups_view(items@).map_values(|m: Seq<Option<Seq<char>>>| bing_candidate(m));
    let mut i: usize = 0;
    assert(results_view(results@) =~= Seq::<ResultFields>::empty());
    while i < items.len()
        invariant_except_break
            i <= items.len(),
        invariant
            cands == groups_view(items@).map_values(|m: Seq<Option<Seq<char>>>| bing_candidate(m)),
            results_view(results@) == offer_all(Seq::empty(), cands.take(i as int), max_results as nat),
        ensures
            i <= items.len(),
            i == items.len() || results_view(results@) == offer_all(Seq::empty(), cands, max_results as nat),
            results_view(results@) == offer_all(Seq::empty(), cands.take(i as int), max_results as nat),
        decreases items.len() - i,
    {
        proof {
            lemma_offer_step(Seq::empty(), cands, max_results as nat, i as int);
        }
        let block = group_text(&items[i], 1);
        match regex_captures_first(r#"(?is)<h2[^>]*>\s*<a[^>]*href="([^"]+)"[^>]*>(.*?)</a>"#, block.as_str()) {
            None => {},
            Some(link) => {
                let raw_url = group_text(&link, 1);
                let title_raw = group_text(&link, 2);
                let snippet_raw = first_group_of(r#"(?is)<p[^>]*>(.*?)</p>"#, block.as_str());
                let url = decode_basic_html_entities(raw_url.as_str());
                let title = clean_html_fragment(title_raw.as_str());
                let snippet = clean_html_fragment(snippet_raw.as_str());
                push_search_result(&mut results, title.as_str(), url.as_str(), snippet.as_str(), max_results);
            },
        }
        i += 1;
        if results.len() >= max_results {
            proof {
                lemma_offer_saturated(Seq::empty(), cands, max_results as nat, i as int);
            }
            break;
        }
    }
    proof {
        if i == items.len() {
            assert(cands.take(i as int) =~= cands);
        }
    }
    results
}

/// The parts of an address as `url::Url::parse` reads it: the host (as
/// `host_str` gives it), the path, and the decoded query pairs in order;
/// `None` when it does not parse.
pub uninterp spec fn url_components(text: Seq<char>) -> Option<(Option<Seq<char>>, Seq<char>, Seq<(Seq<char>, Seq<char>)>)>;

/// The view of query pairs.
pub open spec fn pairs_view(v: Seq<(String, String)>) -> Seq<(Seq<char>, Seq<char>)> {
    v.map_values(|p: (String, String)| (p.0@, p.1@))
}

/// Parses an address with `url::Url::parse` and takes its host
/// (`host_str`), path (`path`) and query pairs (`query_pairs`, decoded).
/// The result depends on the text alone: it is named `url_components`.
#[verifier::external_body]
fn parse_url_components(text: &str) -> (r: Option<(Option<String>, String, Vec<(String, String)>)>)
    ensures
        match r {
            Some((host, path, pairs)) => url_components(text@) == Some((crate::text::opt_view(host), path@, pairs_view(pairs@))),
            None => url_components(text@) is None,
        },
{
    match url::Url::parse(text) {
        Ok(u) => Some((
            u.host_str().map(|h| h.to_string()),
            u.path().to_string(),
            u.query_pairs().map(|(k, v)| (k.into_owned(), v.into_owned())).collect(),
        )),
        Err(_) => None,
    }
}

/// The value of the first pair with this key.
pub open spec fn first_value(pairs: Seq<(Seq<char>, Seq<char>)>, key: Seq<char>) -> Option<Seq<char>>
    decreases pairs.len(),
{
    if pairs.len() == 0 {
        None
    } else if pairs[0].0 == key {
        Some(pairs[0].1)
    } else {
        first_value(pairs.drop_first(), key)
    }
}

/// The address a DuckDuckGo result link leads to: a protocol-relative
/// address gets `https:`; a `https://duckduckgo.com/l/` redirect gives its
/// `uddg` parameter; any other address is kept.
pub open spec fn ddg_target(raw: Seq<char>) -> Seq<char> {
    let normalized = if crate::text::starts_with(raw, "//"@) { "https:"@ + raw } else { raw };
    match url_components(normalized) {
        Some((host, path, pairs)) => if host == Some("duckduckgo.com"@) && path == "/l/"@ {
            match first_value(pairs, "uddg"@) {
                Some(v) => v,
                None => normalized,
            }
        } else {
            normalized
        },
        None => normalized,
    }
}

/// Follows a DuckDuckGo redirect link (see `ddg_target`).
pub fn unwrap_duckduckgo_redirect(raw_url: &str) -> (r: String)
    ensures
        r@ == ddg_target(raw_url@),
{
    let rc = chars_of(raw_url);
    let slashes = chars_of("//");
    let normalized = if crate::text::chars_starts_with(rc.as_slice(), slashes.as_slice()) {
        let mut out = chars_of("https:");
        push_all(&mut out, rc.as_slice());
        string_of(out.as_slice())
    } else {
        owned(raw_url)
    };
    if let Some((host, path, pairs)) = parse_url_components(normalized.as_str()) {
        let is_ddg = match &host {
            Some(h) => crate::text::str_eq(h.as_str(), "duckduckgo.com"),
            None => false,
        };
        if is_ddg && crate::text::str_eq(path.as_str(), "/l/") {
            let mut i: usize = 0;
            assert(pairs_view(pairs@).skip(0) =~= pairs_view(pairs@));
            proof {
                reveal_strlit("//");
                reveal_strlit("https:");
                assert(normalized@ == if crate::text::starts_with(raw_url@, "//"@) { "https:"@ + raw_url@ } else { raw_url@ });
                assert(crate::text::opt_view(host) == Some("duckduckgo.com"@));
            }
            while i < pairs.len()
                invariant
                    i <= pairs.len(),
                    ddg_target(raw_url@) == match first_value(pairs_view(pairs@), "uddg"@) {
                        Some(v) => v,
                        None => normalized@,
                    },
                    first_value(pairs_view(pairs@), "uddg"@) == first_value(pairs_view(pairs@).skip(i as int), "uddg"@),
                decreases pairs.len() - i,
            {
                proof {
                    assert(pairs_view(pairs@).skip(i as int).drop_first() =~= pairs_view(pairs@).skip(i + 1));
                }
                if crate::text::str_eq(pairs[i].0.as_str(), "uddg") {
                    let v = pairs[i].1.clone();
                    assert(pairs_view(pairs@).skip(i as int)[0] == (pairs@[i as int].0@, pairs@[i as int].1@));
                    assert(first_value(pairs_view(pairs@), "uddg"@) == Some(v@));
                    return v;
                }
                i += 1;
            }
        }
    }
    normalized
}

pub open spec fn ddg_item_pattern() -> Seq<char> {
    r#"(?is)<div[^>]*class="[^"]*\bresult__body\b[^"]*"[^>]*>(.*?)</div>"#@
}

pub open spec fn ddg_link_pattern() -> Seq<char> {
    r#"(?is)<a[^>]*class="[^"]*\bresult__a\b[^"]*"[^>]*href="([^"]+)"[^>]*>(.*?)</a>"#@
}

pub open spec fn ddg_snippet_pattern() -> Seq<char> {
    r#"(?is)<a[^>]*class="[^"]*\bresult__snippet\b[^"]*"[^>]*>(.*?)</a>"#@
}

/// What a DuckDuckGo result block offers: nothing without a result link;
/// else the link's text cleaned, its address decoded and unwrapped, and
/// the snippet cleaned.
pub open spec fn ddg_candidate(m: Seq<Option<Seq<char>>>) -> Option<ResultFields> {
    let block = group_or_empty(m, 1);
    match regex_first_groups(ddg_link_pattern(), block) {
        None => None,
        Some(link) => Some((
            cleaned_fragment(group_or_empty(link, 2)),
            ddg_target(html_entities_decoded(group_or_empty(link, 1))),
            cleaned_fragment(first_group_text(ddg_snippet_pattern(), block)),
        )),
    }
}

/// The results of a DuckDuckGo HTML result page: each result block offers
/// its candidate (see `ddg_candidate`), at most `max_results` kept.
pub fn parse_duckduckgo_html_results(html: &str, max_results: usize) -> (r: Vec<SearchResult>)
    ensures
        results_view(r@) == offer_all(
            Seq::empty(),
            regex_capture_groups(ddg_item_pattern(), html@).map_values(|m: Seq<Option<Seq<char>>>| ddg_candidate(m)),
            max_results as nat,
        ),
{
    let mut results: Vec<SearchResult> = Vec::new();
    let items = regex_captures_all(r#"(?is)<div[^>]*class="[^"]*\bresult__body\b[^"]*"[^>]*>(.*?)</div>"#, html);
    let ghost cands = groups_view(items@).map_values(|m: Seq<Option<Seq<char>>>| ddg_candidate(m));
    let mut i: usize = 0;
    assert(results_view(results@) =~= Seq::<ResultFields>::empty());
    while i < items.len()
        invariant_except_break
            i <= items.len(),
        invariant
            cands == groups_view(items@).map_values(|m: Seq<Option<Seq<char>>>| ddg_candidate(m)),
            results_view(results@) == offer_all(Seq::empty(), cands.take(i as int), max_results as nat),
        ensures
            i <= items.len(),
            i == items.len() || results_view(results@) == offer_all(Seq::empty(), cands, max_results as nat),
            results_view(results@) == offer_all(Seq::empty(), cands.take(i as int), max_results as nat),
        decreases items.len() - i,
    {
        proof {
            lemma_offer_step(Seq::empty(), cands, max_results as nat, i as int);
        }
        let block = group_text(&items[i], 1);
        match regex_captures_first(
            r#"(?is)<a[^>]*class="[^"]*\bresult__a\b[^"]*"[^>]*href="([^"]+)"[^>]*>(.*?)</a>"#,
            block.as_str(),
        ) {
            None => {},
            Some(link) => {
                let raw_url = group_text(&link, 1);
                let title_raw = group_text(&link, 2);
                let snippet_raw = first_group_of(
                    r#"(?is)<a[^>]*class="[^"]*\bresult__snippet\b[^"]*"[^>]*>(.*?)</a>"#,
                    block.as_str(),
                );
                let decoded = decode_basic_html_entities(raw_url.as_str());
                let url = unwrap_duckduckgo_redirect(decoded.as_str());
                let title = clean_html_fragment(title_raw.as_str());
                let snippet = clean_html_fragment(snippet_raw.as_str());
                push_search_result(&mut results, title.as_str(), url.as_str(), snippet.as_str(), max_results);
            },
        }
        i += 1;
        if results.len() >= max_results {
            proof {
                lemma_offer_saturated(Seq::empty(), cands, max_results as nat, i as int);
            }
            break;
        }
    }
    proof {
        if i == items.len() {
            assert(cands.take(i as int) =~= cands);
        }
    }
    results
}

/// When the results are already full, offering changes nothing.
proof fn lemma_offer_full_start(start: Seq<ResultFields>, cands: Seq<Option<ResultFields>>, max_results: nat)
    requires
        start.len() >= max_results,
    ensures
        offer_all(start, cands, max_results) == start,
    decreases cands.len(),
{
    if cands.len() > 0 {
        lemma_offer_full_start(start, cands.drop_last(), max_results);
    }
}

pub open spec fn exa_result_pattern() -> Seq<char> {
    r"(?ms)Title:\s*(?P<title>.*?)\n(?:Author:.*?\n)?(?:Published Date:.*?\n)?URL:\s*(?P<url>.*?)\nText:\s*(?P<text>.*?)(?=\nTitle:|\z)"@
}

/// A group cleaned as HTML, or the empty text when it took no part.
pub open spec fn cleaned_group(m: Seq<Option<Seq<char>>>, i: int) -> Seq<char> {
    match group_at(m, i) {
        Some(t) => cleaned_fragment(t),
        None => Seq::empty(),
    }
}

/// What an Exa text result offers: its title and text cleaned (groups 1
/// and 3, `title` and `text`), its address trimmed (group 2, `url`).
pub open spec fn exa_candidate(m: Seq<Option<Seq<char>>>) -> Option<ResultFields> {
    Some((
        cleaned_group(m, 1),
        match group_at(m, 2) {
            Some(t) => trim_seq(t),
            None => Seq::empty(),
        },
        cleaned_group(m, 3),
    ))
}

fn cleaned_group_of(m: &Vec<Option<String>>, i: usize) -> (r: String)
    ensures
        r@ == cleaned_group(opt_views(m@), i as int),
{
    match group(m, i) {
        Some(t) => clean_html_fragment(t.as_str()),
        None => String::new(),
    }
}

/// The results of Exa's text answer: its line breaks made `\n`, then each
/// result entry offers its candidate (see `exa_candidate`), at most
/// `max_results` kept.
pub fn parse_exa_text_results(raw_text: &str, max_results: usize) -> (r: Vec<SearchResult>)
    ensures
        results_view(r@) == offer_all(
            Seq::empty(),
            regex_capture_groups(exa_result_pattern(), replaced(raw_text@, "\r\n"@, "\n"@))
                .map_values(|m: Seq<Option<Seq<char>>>| exa_candidate(m)),
            max_results as nat,
        ),
{
    proof {
        reveal_strlit("\r\n");
    }
    let text = replace_text(raw_text, "\r\n", "\n");
    let mut results: Vec<SearchResult> = Vec::new();
    let items = regex_captures_all(
        r"(?ms)Title:\s*(?P<title>.*?)\n(?:Author:.*?\n)?(?:Published Date:.*?\n)?URL:\s*(?P<url>.*?)\nText:\s*(?P<text>.*?)(?=\nTitle:|\z)",
        text.as_str(),
    );
    let ghost cands = groups_view(items@).map_values(|m: Seq<Option<Seq<char>>>| exa_candidate(m));
    let mut i: usize = 0;
    assert(results_view(results@) =~= Seq::<ResultFields>::empty());
    while i < items.len()
        invariant_except_break
            i <= items.len(),
        invariant
            cands == groups_view(items@).map_values(|m: Seq<Option<Seq<char>>>| exa_candidate(m)),
            results_view(results@) == offer_all(Seq::empty(), cands.take(i as int), max_results as nat),
        ensures
            i <= items.len(),
            i == items.len() || results_view(results@) == offer_all(Seq::empty(), cands, max_results as nat),
            results_view(results@) == offer_all(Seq::empty(), cands.take(i as int), max_results as nat),
        decreases items.len() - i,
    {
        proof {
            lemma_offer_step(Seq::empty(), cands, max_results as nat, i as int);
        }
        let title = cleaned_group_of(&items[i], 1);
        let url = match group(&items[i], 2) {
            Some(t) => trim(t.as_str()),
            None => String::new(),
        };
        let snippet = cleaned_group_of(&items[i], 3);
        push_search_result(&mut results, title.as_str(), url.as_str(), snippet.as_str(), max_results);
        i += 1;
        if results.len() >= max_results {
            proof {
                lemma_offer_saturated(Seq::empty(), cands, max_results as nat, i as int);
            }
            break;
        }
    }
    proof {
        if i == items.len() {
            assert(cands.take(i as int) =~= cands);
        }
    }
    results
}

/// A related topic of a DuckDuckGo instant answer inside a group.
#[derive(Debug, Clone)]
pub struct TopicEntry {
    /// Its `Text`, when that is a string.
    pub text: Option<String>,
    /// Its `FirstURL`, when that is a string.
    pub first_url: Option<String>,
}

/// An item of `RelatedTopics` in a DuckDuckGo instant answer.
#[derive(Debug, Clone)]
pub enum RelatedTopic {
    /// An item whose `Text` is a string.
    Entry { text: String, first_url: Option<String> },
    /// An item without such a text whose `Topics` is an array.
    Group(Vec<TopicEntry>),
    /// Anything else.
    Other,
}

/// What the results of a DuckDuckGo instant answer are read from.
#[derive(Debug, Clone)]
pub struct InstantAnswer {
    /// `AbstractText`, when it is a string.
    pub abstract_text: Option<String>,
    /// `AbstractURL`, when it is a string.
    pub abstract_url: Option<String>,
    /// `Heading`, when it is a string.
    pub heading: Option<String>,
    /// The items of `RelatedTopics`, when it is an array (else none).
    pub related_topics: Vec<RelatedTopic>,
}

/// The text of an optional string, or the empty text.
pub open spec fn or_empty(o: Option<String>) -> Seq<char> {
    match o {
        Some(s) => s@,
        None => Seq::empty(),
    }
}

/// What an item of `RelatedTopics` offers: its text (as title and snippet)
/// with its address; for a group, each of its topics in order.
pub open spec fn topic_candidates(t: RelatedTopic) -> Seq<Option<ResultFields>> {
    match t {
        RelatedTopic::Entry { text, first_url } => seq![Some((text@, or_empty(first_url), text@))],
        RelatedTopic::Group(es) => es@.map_values(|e: TopicEntry| entry_candidate(e)),
        RelatedTopic::Other => Seq::empty(),
    }
}

pub open spec fn entry_candidate(e: TopicEntry) -> Option<ResultFields> {
    Some((or_empty(e.text), or_empty(e.first_url), or_empty(e.text)))
}

/// What the items of `RelatedTopics` offer, in order.
pub open spec fn related_candidates(ts: Seq<RelatedTopic>) -> Seq<Option<ResultFields>>
    decreases ts.len(),
{
    if ts.len() == 0 {
        Seq::empty()
    } else {
        related_candidates(ts.drop_last()) + topic_candidates(ts.last())
    }
}

/// What the abstract of an instant answer offers, when it has one: its
/// text under its heading (or `Result`), with its address.
pub open spec fn instant_head(a: InstantAnswer) -> Seq<Option<ResultFields>> {
    match a.abstract_text {
        Some(t) => seq![Some((
            match a.heading {
                Some(h) => h@,
                None => "Result"@,
            },
            or_empty(a.abstract_url),
            t@,
        ))],
        None => Seq::empty(),
    }
}

/// What an instant answer offers: its abstract first, then its related
/// topics.
pub open spec fn instant_candidates(a: InstantAnswer) -> Seq<Option<ResultFields>> {
    instant_head(a) + related_candidates(a.related_topics@)
}

proof fn lemma_related_split(ts: Seq<RelatedTopic>, i: int)
    requires
        0 <= i <= ts.len(),
    ensures
        related_candidates(ts) == related_candidates(ts.take(i)) + related_candidates(ts.skip(i)),
    decreases ts.len(),
{
    if i == ts.len() {
        assert(ts.take(i) =~= ts);
        assert(ts.skip(i) =~= Seq::<RelatedTopic>::empty());
        assert(related_candidates(ts) + Seq::<Option<ResultFields>>::empty() =~= related_candidates(ts));
    } else {
        lemma_related_split(ts.drop_last(), i);
        assert(ts.drop_last().take(i) =~= ts.take(i));
        assert(ts.skip(i).drop_last() =~= ts.drop_last().skip(i));
        assert(ts.skip(i).last() == ts.last());
        assert((related_candidates(ts.take(i)) + related_candidates(ts.drop_last().skip(i))) + topic_candidates(ts.last())
            =~= related_candidates(ts.take(i)) + (related_candidates(ts.drop_last().skip(i)) + topic_candidates(ts.last())));
    }
}

fn opt_text_or(o: &Option<String>, default: &str) -> (r: String)
    ensures
        r@ == match o {
            Some(s) => s@,
            None => default@,
        },
{
    match o {
        Some(s) => s.clone(),
        None => owned(default),
    }
}

/// The results of a DuckDuckGo instant answer: its candidates (see
/// `instant_candidates`) offered in order, at most `max_results` kept.
pub fn parse_duckduckgo_instant_results(payload: &InstantAnswer, max_results: usize) -> (r: Vec<SearchResult>)
    ensures
        results_view(r@) == offer_all(Seq::empty(), instant_candidates(*payload), max_results as nat),
{
    let mut results: Vec<SearchResult> = Vec::new();
    let ghost head = instant_head(*payload);
    assert(results_view(results@) =~= Seq::<ResultFields>::empty());
    if let Some(abstract_text) = &payload.abstract_text {
        let heading = opt_text_or(&payload.heading, "Result");
        let url = opt_text_or(&payload.abstract_url, "");
        proof {
            reveal_strlit("");
            assert(head.drop_last() =~= Seq::<Option<ResultFields>>::empty());
            assert(head.last() == Some((heading@, url@, abstract_text@)));
            assert(offer_all(Seq::empty(), head.drop_last(), max_results as nat) == Seq::<ResultFields>::empty());
        }
        push_search_result(&mut results, heading.as_str(), url.as_str(), abstract_text.as_str(), max_results);
    } else {
        assert(head =~= Seq::<Option<ResultFields>>::empty());
        assert(offer_all(Seq::empty(), head, max_results as nat) == Seq::<ResultFields>::empty());
    }
    assert(results_view(results@) == offer_all(Seq::empty(), head, max_results as nat));
    let related = &payload.related_topics;
    let ghost all = related@;
    let mut i: usize = 0;
    proof {
        assert(all.take(0) =~= Seq::<RelatedTopic>::empty());
        assert(head + related_candidates(all.take(0)) =~= head);
    }
    while i < related.len()
        invariant_except_break
            i <= related.len(),
        invariant
            all == related@,
            results_view(results@) == offer_all(Seq::empty(), head + related_candidates(all.take(i as int)), max_results as nat),
        ensures
            i <= related.len(),
            i == related.len() || results_view(results@).len() >= max_results,
            results_view(results@) == offer_all(Seq::empty(), head + related_candidates(all.take(i as int)), max_results as nat),
        decreases related.len() - i,
    {
        let ghost prefix = head + related_candidates(all.take(i as int));
        let ghost tc = topic_candidates(all[i as int]);
        proof {
            assert(all.take(i + 1).drop_last() =~= all.take(i as int));
            assert(all.take(i + 1).last() == all[i as int]);
            assert(head + related_candidates(all.take(i + 1)) =~= prefix + tc);
            lemma_offer_concat(Seq::empty(), prefix, tc, max_results as nat);
        }
        let ghost base = offer_all(Seq::empty(), prefix, max_results as nat);
        match &related[i] {
            RelatedTopic::Entry { text, first_url } => {
                let link = opt_text_or(first_url, "");
                proof {
                    reveal_strlit("");
                    assert(tc.drop_last() =~= Seq::<Option<ResultFields>>::empty());
                }
                proof {
                    assert(tc.last() == Some((text@, link@, text@)));
                    assert(offer_all(base, tc.drop_last(), max_results as nat) == base);
                }
                push_search_result(&mut results, text.as_str(), link.as_str(), text.as_str(), max_results);
            },
            RelatedTopic::Group(topics) => {
                let mut j: usize = 0;
                assert(tc.take(0) =~= Seq::<Option<ResultFields>>::empty());
                while j < topics.len()
                    invariant_except_break
                        j <= topics.len(),
                    invariant
                        tc == topics@.map_values(|e: TopicEntry| entry_candidate(e)),
                        results_view(results@) == offer_all(base, tc.take(j as int), max_results as nat),
                    ensures
                        j <= topics.len(),
                        j == topics.len() || results_view(results@) == offer_all(base, tc, max_results as nat),
                        results_view(results@) == offer_all(base, tc.take(j as int), max_results as nat),
                    decreases topics.len() - j,
                {
                    proof {
                        lemma_offer_step(base, tc, max_results as nat, j as int);
                        reveal_strlit("");
                    }
                    let text = opt_text_or(&topics[j].text, "");
                    let link = opt_text_or(&topics[j].first_url, "");
                    push_search_result(&mut results, text.as_str(), link.as_str(), text.as_str(), max_results);
                    j += 1;
                    if results.len() >= max_results {
                        proof {
                            lemma_offer_saturated(base, tc, max_results as nat, j as int);
                        }
                        break;
                    }
                }
                proof {
                    if j == topics.len() {
                        assert(tc.take(j as int) =~= tc);
                    }
                }
            },
            RelatedTopic::Other => {
                assert(tc =~= Seq::<Option<ResultFields>>::empty());
                assert(offer_all(base, tc, max_results as nat) == base);
            },
        }
        assert(results_view(results@) == offer_all(base, tc, max_results as nat));
        i += 1;
        if results.len() >= max_results {
            break;
        }
    }
    proof {
        let full = head + related_candidates(all);
        lemma_related_split(all, i as int);
        assert(full =~= (head + related_candidates(all.take(i as int))) + related_candidates(all.skip(i as int)));
        lemma_offer_concat(Seq::empty(), head + related_candidates(all.take(i as int)), related_candidates(all.skip(i as int)), max_results as nat);
        if i < related.len() {
            lemma_offer_full_start(results_view(results@), related_candidates(all.skip(i as int)), max_results as nat);
        } else {
            assert(all.skip(i as int) =~= Seq::<RelatedTopic>::empty());
            assert(related_candidates(all.skip(i as int)) =~= Seq::<Option<ResultFields>>::empty());
        }
    }
    results
}

} // verus!
