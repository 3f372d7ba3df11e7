//! Long-term memory around the model: which remembered facts are worth
//! recalling for a message, how remembered text is normalised, which
//! provider a text model belongs to, and whose memory it is.

use vstd::prelude::*;
use base64::Engine;
use crate::text::{
    chars_of, string_of, owned, push_all, trim_seq, lower_seq, trim_chars, lower_chars,
    starts_with, chars_starts_with, words_of, words_seq, join_seq, join_chars, views, take_chars,
    take_chars_exec, is_ascii_alnum, char_is_ascii_alnum, char_lower, lower_char, opt_view, str_eq,
};

verus! {

/// The family of a text model, which decides where its credentials come from.
#[derive(Debug, Clone, Copy, PartialEq, Eq, Structural)]
pub enum TextModelProvider {
    Glm,
    Doubao,
    MiniMax,
    OpenAi,
}

/// The provider of a model, by the prefix of its trimmed, lowercased name:
/// `gpt-` is OpenAI; `minimax-` and `abab` MiniMax; `doubao-` and `ep-`
/// Doubao; anything else GLM.
pub open spec fn model_provider(model: Seq<char>) -> TextModelProvider {
    let n = lower_seq(trim_seq(model));
    if starts_with(n, "gpt-"@) {
        TextModelProvider::OpenAi
    } else if starts_with(n, "minimax-"@) || starts_with(n, "abab"@) {
        TextModelProvider::MiniMax
    } else if starts_with(n, "doubao-"@) || starts_with(n, "ep-"@) {
        TextModelProvider::Doubao
    } else {
        TextModelProvider::Glm
    }
}

fn starts_with_lit(s: &[char], p: &str) -> (r: bool)
    ensures
        r == starts_with(s@, p@),
{
    let pc = chars_of(p);
    chars_starts_with(s, pc.as_slice())
}

/// Tells which provider a text model belongs to (see `model_provider`).
pub fn detect_text_model_provider(model: &str) -> (r: TextModelProvider)
    ensures
        r == model_provider(model@),
{
    let cs = chars_of(model);
    let t = trim_chars(cs.as_slice());
    let n = lower_chars(t.as_slice());
    if starts_with_lit(n.as_slice(), "gpt-") {
        return TextModelProvider::OpenAi;
    }
    if starts_with_lit(n.as_slice(), "minimax-") || starts_with_lit(n.as_slice(), "abab") {
        return TextModelProvider::MiniMax;
    }
    if starts_with_lit(n.as_slice(), "doubao-") || starts_with_lit(n.as_slice(), "ep-") {
        return TextModelProvider::Doubao;
    }
    TextModelProvider::Glm
}

/// The first value that is present and not blank (returned as it is).
pub open spec fn first_non_blank(values: Seq<Option<String>>) -> Option<Seq<char>>
    decreases values.len(),
{
    if values.len() == 0 {
        None
    } else {
        match values[0] {
            Some(v) => if trim_seq(v@).len() > 0 {
                Some(v@)
            } else {
                first_non_blank(values.drop_first())
            },
            None => first_non_blank(values.drop_first()),
        }
    }
}

/// The first of the values that is present and not blank.
pub fn first_non_empty(values: Vec<Option<String>>) -> (r: Option<String>)
    ensures
        opt_view(r) == first_non_blank(values@),
{
    let mut i: usize = 0;
    assert(values@.skip(0) =~= values@);
    while i < values.len()
        invariant
            i <= values.len(),
            first_non_blank(values@) == first_non_blank(values@.skip(i as int)),
        decreases values.len() - i,
    {
        let ghost rest = values@.skip(i as int);
        assert(rest[0] == values@[i as int]);
        assert(rest.drop_first() =~= values@.skip(i + 1));
        match &values[i] {
            Some(v) => {
                let cs = chars_of(v.as_str());
                let t = trim_chars(cs.as_slice());
                if t.len() > 0 {
                    return Some(v.clone());
                }
            },
            None => {},
        }
        i += 1;
    }
    assert(values@.skip(values.len() as int) =~= Seq::<Option<String>>::empty());
    None
}

/// The parts of a text between the separators, empty parts included
/// (`str::split` with a character).
pub open spec fn split_parts(s: Seq<char>, sep: char) -> Seq<Seq<char>>
    decreases s.len(),
{
    if s.len() == 0 {
        seq![Seq::<char>::empty()]
    } else {
        let parts = split_parts(s.drop_last(), sep);
        if s.last() == sep {
            parts.push(Seq::empty())
        } else {
            parts.update(parts.len() - 1, parts.last().push(s.last()))
        }
    }
}

proof fn lemma_split_parts_nonempty(s: Seq<char>, sep: char)
    ensures
        split_parts(s, sep).len() > 0,
    decreases s.len(),
{
    if s.len() > 0 {
        lemma_split_parts_nonempty(s.drop_last(), sep);
    }
}

/// `str::split` with a character.
pub fn split_on(s: &[char], sep: char) -> (r: Vec<Vec<char>>)
    ensures
        views(r@) == split_parts(s@, sep),
{
    let mut done: Vec<Vec<char>> = Vec::new();
    let mut cur: Vec<char> = Vec::new();
    let mut i: usize = 0;
    while i < s.len()
        invariant
            i <= s.len(),
            views(done@).push(cur@) == split_parts(s@.take(i as int), sep),
        decreases s.len() - i,
    {
        proof {
            assert(s@.take(i + 1).drop_last() =~= s@.take(i as int));
            assert(s@.take(i + 1).last() == s@[i as int]);
            lemma_split_parts_nonempty(s@.take(i as int), sep);
        }
        let ghost before_done = views(done@);
        let ghost before_cur = cur@;
        if s[i] == sep {
            let finished = cur;
            done.push(finished);
            cur = Vec::new();
            assert(views(done@) =~= before_done.push(before_cur));
            assert(views(done@).push(cur@) =~= before_done.push(before_cur).push(Seq::<char>::empty()));
        } else {
            cur.push(s[i]);
            assert(views(done@).push(cur@) =~= before_done.push(before_cur).update(
                before_done.len() as int,
                before_cur.push(s@[i as int]),
            ));
        }
        i += 1;
    }
    assert(s@.take(s.len() as int) =~= s@);
    let ghost d = views(done@);
    done.push(cur);
    assert(views(done@) =~= d.push(cur@));
    done
}

/// The non-empty ones of some texts, in order.
pub open spec fn non_empty_parts(parts: Seq<Seq<char>>) -> Seq<Seq<char>>
    decreases parts.len(),
{
    if parts.len() == 0 {
        Seq::empty()
    } else {
        let rest = non_empty_parts(parts.drop_last());
        if parts.last().len() > 0 {
            rest.push(parts.last())
        } else {
            rest
        }
    }
}

/// One character of an identifier: ASCII letters and digits lowercased,
/// anything else `_`.
pub open spec fn identifier_char(c: char) -> char {
    if is_ascii_alnum(c) {
        lower_char(c)
    } else {
        '_'
    }
}

/// An identifier made of a free text: its letters and digits, lowercased,
/// in runs joined by single `_`; `default` when there are none.
pub open spec fn identifier_of(value: Seq<char>) -> Seq<char> {
    let mapped = value.map_values(|c: char| identifier_char(c));
    let compact = join_seq(non_empty_parts(split_parts(mapped, '_')), "_"@);
    if compact.len() == 0 {
        "default"@
    } else {
        compact
    }
}

/// Makes an identifier of a user name (see `identifier_of`).
pub fn sanitize_identifier(value: &str) -> (r: String)
    ensures
        r@ == identifier_of(value@),
{
    let cs = chars_of(value);
    let mut mapped: Vec<char> = Vec::new();
    let mut i: usize = 0;
    while i < cs.len()
        invariant
            i <= cs.len(),
            cs@ == value@,
            mapped@ =~= cs@.take(i as int).map_values(|c: char| identifier_char(c)),
        decreases cs.len() - i,
    {
        let c = cs[i];
        let m = if char_is_ascii_alnum(c) { char_lower(c) } else { '_' };
        mapped.push(m);
        i += 1;
    }
    assert(cs@.take(cs.len() as int) =~= cs@);
    let parts = split_on(mapped.as_slice(), '_');
    let mut kept: Vec<Vec<char>> = Vec::new();
    let mut k: usize = 0;
    while k < parts.len()
        invariant
            k <= parts.len(),
            views(kept@) =~= non_empty_parts(views(parts@).take(k as int)),
        decreases parts.len() - k,
    {
        proof {
            assert(views(parts@).take(k + 1).drop_last() =~= views(parts@).take(k as int));
            assert(views(parts@).take(k + 1).last() == parts@[k as int]@);
        }
        if parts[k].len() > 0 {
            let ghost before = views(kept@);
            kept.push(crate::text::copy_chars(&parts[k]));
            assert(views(kept@) =~= before.push(parts@[k as int]@));
        }
        k += 1;
    }
    assert(views(parts@).take(parts.len() as int) =~= views(parts@));
    let sep = chars_of("_");
    let compact = join_chars(&kept, sep.as_slice());
    if compact.len() == 0 {
        owned("default")
    } else {
        string_of(compact.as_slice())
    }
}

/// The memory text of a message: its words joined by single spaces, at most
/// 220 characters.
pub open spec fn memory_text(text: Seq<char>) -> Seq<char> {
    take_chars(trim_seq(join_seq(words_seq(text), " "@)), 220)
}

/// Normalises a text before it is remembered or compared (see
/// `memory_text`).
pub fn normalize_memory_text(text: &str) -> (r: String)
    ensures
        r@ == memory_text(text@),
{
    let cs = chars_of(text);
    let words = words_of(cs.as_slice());
    assert(views(words@) =~= words_seq(text@));
    let sp = chars_of(" ");
    let collapsed = join_chars(&words, sp.as_slice());
    let t = trim_chars(collapsed.as_slice());
    let cut = take_chars_exec(t.as_slice(), 220);
    string_of(cut.as_slice())
}

/// The terms of a text: its runs of ASCII letters and digits, lowercased,
/// of at least two characters.
pub open spec fn terms_of(text: Seq<char>) -> Seq<Seq<char>> {
    long_parts(split_parts(lower_seq(text).map_values(|c: char| if is_ascii_alnum(c) { c } else { ' ' }), ' '))
}

/// The parts of at least two characters.
pub open spec fn long_parts(parts: Seq<Seq<char>>) -> Seq<Seq<char>>
    decreases parts.len(),
{
    if parts.len() == 0 {
        Seq::empty()
    } else {
        let rest = long_parts(parts.drop_last());
        if parts.last().len() >= 2 {
            rest.push(parts.last())
        } else {
            rest
        }
    }
}

/// The terms of a text (see `terms_of`), in order of appearance; a term may
/// appear more than once.
pub fn tokenize_terms(text: &str) -> (r: Vec<String>)
    ensures
        crate::text::string_views(r@) == terms_of(text@),
{
    let cs = chars_of(text);
    let lowered = lower_chars(cs.as_slice());
    let mut spaced: Vec<char> = Vec::new();
    let mut i: usize = 0;
    while i < lowered.len()
        invariant
            i <= lowered.len(),
            spaced@ =~= lowered@.take(i as int).map_values(|c: char| if is_ascii_alnum(c) { c } else { ' ' }),
        decreases lowered.len() - i,
    {
        let c = lowered[i];
        spaced.push(if char_is_ascii_alnum(c) { c } else { ' ' });
        i += 1;
    }
    assert(lowered@.take(lowered.len() as int) =~= lowered@);
    let parts = split_on(spaced.as_slice(), ' ');
    let mut out: Vec<String> = Vec::new();
    let mut k: usize = 0;
    while k < parts.len()
        invariant
            k <= parts.len(),
            crate::text::string_views(out@) =~= long_parts(views(parts@).take(k as int)),
        decreases parts.len() - k,
    {
        proof {
            assert(views(parts@).take(k + 1).drop_last() =~= views(parts@).take(k as int));
            assert(views(parts@).take(k + 1).last() == parts@[k as int]@);
        }
        if parts[k].len() >= 2 {
            let ghost before = crate::text::string_views(out@);
            out.push(string_of(parts[k].as_slice()));
            assert(crate::text::string_views(out@) =~= before.push(parts@[k as int]@));
        }
        k += 1;
    }
    assert(views(parts@).take(parts.len() as int) =~= views(parts@));
    out
}

/// Whether two lists of terms share one.
pub open spec fn terms_overlap(left: Seq<Seq<char>>, right: Seq<Seq<char>>) -> bool {
    exists|i: int, j: int| 0 <= i < left.len() && 0 <= j < right.len() && left[i] == right[j]
}

/// Whether the two term lists share a term.
pub fn has_term_overlap(left: &Vec<String>, right: &Vec<String>) -> (r: bool)
    ensures
        r == terms_overlap(crate::text::string_views(left@), crate::text::string_views(right@)),
{
    let ghost l = crate::text::string_views(left@);
    let ghost rt = crate::text::string_views(right@);
    let mut i: usize = 0;
    while i < left.len()
        invariant
            i <= left.len(),
            l == crate::text::string_views(left@),
            rt == crate::text::string_views(right@),
            forall|a: int, b: int| 0 <= a < i && 0 <= b < rt.len() ==> l[a] != rt[b],
        decreases left.len() - i,
    {
        let mut j: usize = 0;
        while j < right.len()
            invariant
                i < left.len(),
                j <= right.len(),
                l == crate::text::string_views(left@),
                rt == crate::text::string_views(right@),
                forall|b: int| 0 <= b < j ==> l[i as int] != rt[b],
            decreases right.len() - j,
        {
            if str_eq(left[i].as_str(), right[j].as_str()) {
                assert(l[i as int] == rt[j as int]);
                return true;
            }
            j += 1;
        }
        i += 1;
    }
    false
}

/// At most this many memories are recalled for a message.
pub const MEMORY_SEARCH_LIMIT: usize = 8;

/// A remembered text offered by the search, and whether its score fell
/// below the recall threshold.
pub struct MemoryCandidate {
    pub content: String,
    pub below_threshold: bool,
}

/// A kept memory: the normalised, non-blank text of a candidate before
/// position `bound` that is above the threshold or shares a term with the
/// message.
pub open spec fn is_recalled(hit: (usize, String), query: Seq<char>, candidates: Seq<MemoryCandidate>, bound: int) -> bool {
    &&& hit.0 < bound
    &&& hit.0 < candidates.len()
    &&& hit.1@ == memory_text(candidates[hit.0 as int].content@)
    &&& hit.1@.len() > 0
    &&& (!candidates[hit.0 as int].below_threshold || terms_overlap(terms_of(query), terms_of(hit.1@)))
}

/// The view of recalled memories: each candidate's position and text.
pub open spec fn hits_view(v: Seq<(usize, String)>) -> Seq<(int, Seq<char>)> {
    v.map_values(|p: (usize, String)| (p.0 as int, p.1@))
}

/// The memories recalled from the first `n` candidates, in order: a
/// candidate's normalised text is kept while fewer than eight are kept,
/// when it is not blank, when its score reached the threshold or it shares
/// a term with the message, and when no kept memory has the same text.
pub open spec fn recalled_hits(query: Seq<char>, c: Seq<MemoryCandidate>, n: nat) -> Seq<(int, Seq<char>)>
    decreases n,
{
    if n == 0 {
        Seq::empty()
    } else {
        let h = recalled_hits(query, c, (n - 1) as nat);
        let t = memory_text(c[n - 1].content@);
        if h.len() < 8 && t.len() > 0
            && (!c[n - 1].below_threshold || terms_overlap(terms_of(query), terms_of(t)))
            && !(exists|m: int| 0 <= m < h.len() && #[trigger] h[m].1 == t)
        {
            h.push(((n - 1) as int, t))
        } else {
            h
        }
    }
}

/// Once eight memories are kept, later candidates change nothing.
proof fn lemma_recalled_full(query: Seq<char>, c: Seq<MemoryCandidate>, n: nat, m: nat)
    requires
        n <= m,
        recalled_hits(query, c, n).len() >= 8,
    ensures
        recalled_hits(query, c, m) == recalled_hits(query, c, n),
    decreases m - n,
{
    if n < m {
        lemma_recalled_full(query, c, n, (m - 1) as nat);
    }
}

/// Chooses the memories recalled for a message, in the order the search
/// gave them: each is normalised (see `memory_text`); blank ones, ones
/// below the threshold that share no term with the message, and repeats
/// are skipped; at most eight are kept. Each kept memory comes with the
/// position of its candidate.
pub fn collect_memory_hits(query: &str, candidates: &Vec<MemoryCandidate>) -> (r: Vec<(usize, String)>)
    ensures
        r@.len() <= 8,
        forall|k: int| 0 <= k < r@.len() ==> is_recalled(#[trigger] r@[k], query@, candidates@, candidates@.len() as int),
        forall|a: int, b: int| 0 <= a < b < r@.len() ==> #[trigger] r@[a].0 < #[trigger] r@[b].0 && r@[a].1@ != r@[b].1@,
        hits_view(r@) == recalled_hits(query@, candidates@, candidates@.len()),
{
    let query_terms = tokenize_terms(query);
    let mut hits: Vec<(usize, String)> = Vec::new();
    let mut i: usize = 0;
    while i < candidates.len()
        invariant
            i <= candidates.len(),
            hits@.len() < 8,
            hits_view(hits@) == recalled_hits(query@, candidates@, i as nat),
            crate::text::string_views(query_terms@) == terms_of(query@),
            forall|k: int| 0 <= k < hits@.len() ==> is_recalled(#[trigger] hits@[k], query@, candidates@, i as int),
            forall|a: int, b: int| 0 <= a < b < hits@.len() ==> #[trigger] hits@[a].0 < #[trigger] hits@[b].0 && hits@[a].1@ != hits@[b].1@,
        decreases candidates.len() - i,
    {
        let normalized = normalize_memory_text(candidates[i].content.as_str());
        if !normalized.as_str().is_empty() {
            let terms = tokenize_terms(normalized.as_str());
            let overlap = has_term_overlap(&query_terms, &terms);
            if !candidates[i].below_threshold || overlap {
                let mut seen = false;
                let mut k: usize = 0;
                while k < hits.len()
                    invariant
                        k <= hits.len(),
                        !seen ==> forall|m: int| 0 <= m < k ==> hits@[m].1@ != normalized@,
                        seen ==> exists|m: int| 0 <= m < k && hits@[m].1@ == normalized@,
                    decreases hits.len() - k,
                {
                    if str_eq(hits[k].1.as_str(), normalized.as_str()) {
                        seen = true;
                    }
                    k += 1;
                }
                if !seen {
                    let ghost before = hits@;
                    hits.push((i, normalized));
                    proof {
                        assert forall|a: int, b: int| 0 <= a < b < hits@.len() implies #[trigger] hits@[a].0 < #[trigger] hits@[b].0 && hits@[a].1@ != hits@[b].1@ by {
                            if b == hits@.len() - 1 {
                                assert(hits@[a] == before[a]);
                                assert(is_recalled(before[a], query@, candidates@, i as int));
                            } else {
                                assert(hits@[a] == before[a] && hits@[b] == before[b]);
                            }
                        }
                        assert forall|k2: int| 0 <= k2 < hits@.len() implies is_recalled(#[trigger] hits@[k2], query@, candidates@, i + 1) by {
                            if k2 < before.len() {
                                assert(hits@[k2] == before[k2]);
                            }
                        }
                    }
                    assert(hits_view(hits@) =~= hits_view(before).push((i as int, normalized@)));
                    assert(forall|m: int| 0 <= m < before.len() ==> hits_view(before)[m].1 == before[m].1@);
                    assert(hits_view(hits@) == recalled_hits(query@, candidates@, (i + 1) as nat));
                    if hits.len() >= MEMORY_SEARCH_LIMIT {
                        proof {
                            lemma_recalled_full(query@, candidates@, (i + 1) as nat, candidates@.len());
                        }
                        return hits;
                    }
                } else {
                    proof {
                        let m = choose|m: int| 0 <= m < hits@.len() && hits@[m].1@ == normalized@;
                        assert(hits_view(hits@)[m].1 == normalized@);
                    }
                    assert(hits_view(hits@) == recalled_hits(query@, candidates@, (i + 1) as nat));
                }
            } else {
                assert(hits_view(hits@) == recalled_hits(query@, candidates@, (i + 1) as nat));
            }
        } else {
            assert(hits_view(hits@) == recalled_hits(query@, candidates@, (i + 1) as nat));
        }
        i += 1;
    }
    hits
}

/// The part of a token after its first `.`, up to the next one (the
/// payload of a JSON web token).
pub open spec fn token_payload(token: Seq<char>) -> Option<Seq<char>> {
    let parts = split_parts(token, '.');
    if parts.len() > 1 {
        Some(parts[1])
    } else {
        None
    }
}

/// What the URL-safe base64 engine without padding decodes a text to.
pub uninterp spec fn base64_url_no_pad_decoded(text: Seq<char>) -> Option<Seq<u8>>;

/// What the URL-safe base64 engine with padding decodes a text to.
pub uninterp spec fn base64_url_padded_decoded(text: Seq<char>) -> Option<Seq<u8>>;

/// The `sub` claim of a JSON object in bytes, when it is a string.
pub uninterp spec fn json_sub_claim(bytes: Seq<u8>) -> Option<Seq<char>>;

/// Decodes with `base64::engine::general_purpose::URL_SAFE_NO_PAD`; `None`
/// when the text is not valid for it. The result depends on the text alone.
#[verifier::external_body]
fn decode_url_safe_no_pad(text: &str) -> (r: Option<Vec<u8>>)
    ensures
        match r {
            Some(v) => base64_url_no_pad_decoded(text@) == Some(v@),
            None => base64_url_no_pad_decoded(text@) is None,
        },
{
    match base64::engine::general_purpose::URL_SAFE_NO_PAD.decode(text) {
        Ok(v) => Some(v),
        Err(_) => None,
    }
}

/// Decodes with `base64::engine::general_purpose::URL_SAFE` (padding
/// required); `None` when the text is not valid for it.
#[verifier::external_body]
fn decode_url_safe(text: &str) -> (r: Option<Vec<u8>>)
    ensures
        match r {
            Some(v) => base64_url_padded_decoded(text@) == Some(v@),
            None => base64_url_padded_decoded(text@) is None,
        },
{
    match base64::engine::general_purpose::URL_SAFE.decode(text) {
        Ok(v) => Some(v),
        Err(_) => None,
    }
}

/// Parses the bytes with `serde_json::from_slice` as a JSON value and
/// reads its `sub` field when it is a string.
#[verifier::external_body]
fn sub_claim(bytes: &[u8]) -> (r: Option<String>)
    ensures
        opt_view(r) == json_sub_claim(bytes@),
{
    match serde_json::from_slice::<serde_json::Value>(bytes) {
        Ok(v) => match v.get("sub") {
            Some(serde_json::Value::String(s)) => Some(s.clone()),
            _ => None,
        },
        Err(_) => None,
    }
}

/// The subject of a JSON web token: its payload decoded as URL-safe base64
/// (without padding, else with), read as JSON, and its `sub` string.
pub open spec fn jwt_subject(token: Seq<char>) -> Option<Seq<char>> {
    match token_payload(token) {
        None => None,
        Some(p) => {
            let decoded = match base64_url_no_pad_decoded(p) {
                Some(b) => Some(b),
                None => base64_url_padded_decoded(p),
            };
            match decoded {
                Some(b) => json_sub_claim(b),
                None => None,
            }
        },
    }
}

/// Reads the subject of a JSON web token (see `jwt_subject`).
pub fn decode_jwt_sub(token: &str) -> (r: Option<String>)
    ensures
        opt_view(r) == jwt_subject(token@),
{
    let cs = chars_of(token);
    let parts = split_on(cs.as_slice(), '.');
    if parts.len() <= 1 {
        return None;
    }
    assert(views(parts@)[1] == parts@[1]@);
    let payload = string_of(parts[1].as_slice());
    let decoded = match decode_url_safe_no_pad(payload.as_str()) {
        Some(v) => Some(v),
        None => decode_url_safe(payload.as_str()),
    };
    match decoded {
        Some(bytes) => sub_claim(bytes.as_slice()),
        None => None,
    }
}

/// Whose memory is used: `petool:<subject>` for a signed-in user whose
/// token names one, else `local:<identifier>` of the first present
/// account name of the machine (`default` when none is).
pub open spec fn memory_user_id(token_subject: Option<Seq<char>>, local_names: Seq<Option<String>>) -> Seq<char> {
    match token_subject {
        Some(sub) => "petool:"@ + sub,
        None => "local:"@ + identifier_of(match first_non_blank(local_names) {
            Some(n) => n,
            None => "default"@,
        }),
    }
}

/// Decides whose memory is used (see `memory_user_id`). `local_names` are
/// the values of the `USERNAME`, `USER` and `LOGNAME` environment
/// variables, trimmed, in this order.
pub fn resolve_memory_user_id(token: Option<&str>, local_names: Vec<Option<String>>) -> (r: String)
    ensures
        r@ == memory_user_id(match token {
            Some(t) => jwt_subject(t@),
            None => None,
        }, local_names@),
{
    if let Some(t) = token {
        if let Some(sub) = decode_jwt_sub(t) {
            let mut out = chars_of("petool:");
            let s = chars_of(sub.as_str());
            push_all(&mut out, s.as_slice());
            return string_of(out.as_slice());
        }
    }
    let local_user = match first_non_empty(local_names) {
        Some(n) => n,
        None => owned("default"),
    };
    let id = sanitize_identifier(local_user.as_str());
    let mut out = chars_of("local:");
    let s = chars_of(id.as_str());
    push_all(&mut out, s.as_slice());
    string_of(out.as_slice())
}

} // verus!
