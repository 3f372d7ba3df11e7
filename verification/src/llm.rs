//! The chat model's data: messages, tool calls and reasoning, and the
//! pure parts of talking to a model: merging the text that a streaming
//! provider sends piece by piece, and normalising the messages of a request.

use vstd::prelude::*;
use crate::text::{
    chars_of, string_of, owned, push_all, trim_seq, lower_seq, trim_chars, lower_chars, chars_eq,
    str_eq, starts_with, chars_starts_with, contains_seq, chars_contains, slice_chars, join_seq,
    join_chars, views, opt_view,
};

verus! {

/// One piece of reasoning attached to a message.
#[derive(Debug, Clone)]
pub struct ChatReasoningDetail {
    pub text: Option<String>,
    pub detail_type: Option<String>,
    pub format: Option<String>,
    pub id: Option<String>,
    pub index: Option<usize>,
}

/// The function a tool call invokes.
#[derive(Debug, Clone)]
pub struct ChatToolCallFunction {
    pub name: String,
    pub arguments: String,
}

/// A tool call requested by the model.
#[derive(Debug, Clone)]
pub struct ChatToolCall {
    pub id: String,
    pub call_type: String,
    pub function: ChatToolCallFunction,
}

/// A message of a conversation with the model.
#[derive(Debug, Clone)]
pub struct ChatMessage {
    pub role: String,
    pub content: Option<String>,
    pub tool_calls: Option<Vec<ChatToolCall>>,
    pub tool_call_id: Option<String>,
    pub reasoning_details: Option<Vec<ChatReasoningDetail>>,
    pub reasoning: Option<String>,
}

/// The assistant's message of a non-streaming answer.
#[derive(Debug, Clone)]
pub struct AssistantMessage {
    pub role: String,
    pub content: Option<String>,
    pub tool_calls: Option<Vec<ChatToolCall>>,
}

/// One choice of a non-streaming answer.
#[derive(Debug, Clone)]
pub struct Choice {
    pub index: i32,
    pub message: AssistantMessage,
    pub finish_reason: Option<String>,
}

/// A non-streaming answer.
#[derive(Debug, Clone)]
pub struct ChatResponse {
    pub id: String,
    pub object: String,
    pub created: u64,
    pub model: String,
    pub choices: Vec<Choice>,
}

/// A piece of a tool call as it streams in.
#[derive(Debug, Clone)]
pub struct ToolCallDelta {
    pub index: usize,
    pub id: Option<String>,
    pub name: Option<String>,
    pub arguments_chunk: Option<String>,
}

/// What a streaming answer reports as it arrives.
#[derive(Debug, Clone)]
pub enum LlmStreamEvent {
    Content(String),
    Reasoning(String),
    ToolCallDelta(ToolCallDelta),
}

/// The whole of a streaming answer.
#[derive(Debug, Clone)]
pub struct LlmStreamResult {
    pub content: String,
    pub reasoning: String,
    pub reasoning_details: Option<Vec<ChatReasoningDetail>>,
    pub tool_calls: Vec<ChatToolCall>,
    pub cancelled: bool,
}

/// How the reasoning text grows with a new chunk, and what is new in it.
/// Providers send either pieces to append or the whole text so far; a
/// chunk that repeats the text adds nothing, one that extends it adds the
/// extension, and anything else is appended.
pub open spec fn reasoning_step(base: Seq<char>, chunk: Seq<char>) -> (Seq<char>, Option<Seq<char>>) {
    if chunk.len() == 0 {
        (base, None)
    } else if base.len() == 0 {
        (chunk, Some(chunk))
    } else if chunk == base {
        (base, None)
    } else if starts_with(chunk, base) {
        (chunk, Some(chunk.skip(base.len() as int)))
    } else {
        (base + chunk, Some(chunk))
    }
}

/// Merges a reasoning chunk into the text so far (see `reasoning_step`) and
/// returns what it added, if anything. The text always grows by exactly
/// what is returned.
pub fn append_reasoning_chunk(base: &mut String, chunk: &str) -> (r: Option<String>)
    ensures
        final(base)@ == reasoning_step(old(base)@, chunk@).0,
        opt_view(r) == reasoning_step(old(base)@, chunk@).1,
        final(base)@ == old(base)@ + match r {
            Some(d) => d@,
            None => Seq::<char>::empty(),
        },
{
    let cs = chars_of(chunk);
    if cs.len() == 0 {
        assert(base@ + Seq::<char>::empty() =~= base@);
        return None;
    }
    let bs = chars_of(base.as_str());
    if bs.len() == 0 {
        *base = owned(chunk);
        assert(Seq::<char>::empty() + chunk@ =~= chunk@);
        return Some(owned(chunk));
    }
    if chars_eq(cs.as_slice(), bs.as_slice()) {
        assert(base@ + Seq::<char>::empty() =~= base@);
        return None;
    }
    if chars_starts_with(cs.as_slice(), bs.as_slice()) {
        let delta = slice_chars(cs.as_slice(), bs.len(), cs.len());
        *base = owned(chunk);
        proof {
            assert(delta@ =~= chunk@.skip(bs@.len() as int));
            assert(chunk@ =~= bs@ + delta@);
        }
        return Some(string_of(delta.as_slice()));
    }
    let mut joined = bs;
    push_all(&mut joined, cs.as_slice());
    *base = string_of(joined.as_slice());
    Some(owned(chunk))
}

/// Whether `serde_json::from_str::<Value>` accepts the text.
pub uninterp spec fn json_text_parses(text: Seq<char>) -> bool;

/// Asks `serde_json::from_str::<serde_json::Value>` whether the text is one
/// JSON value. Whether it is depends on the text alone; it is named
/// `json_text_parses`.
#[verifier::external_body]
fn json_parses(text: &str) -> (r: bool)
    ensures
        r == json_text_parses(text@),
{
    serde_json::from_str::<serde_json::Value>(text).is_ok()
}

/// The position of the last `c` in `s`.
pub open spec fn last_index_of(s: Seq<char>, c: char) -> Option<int>
    decreases s.len(),
{
    if s.len() == 0 {
        None
    } else if s.last() == c {
        Some(s.len() - 1)
    } else {
        last_index_of(s.drop_last(), c)
    }
}

proof fn lemma_last_index_of(s: Seq<char>, c: char)
    ensures
        last_index_of(s, c) matches Some(i) ==> 0 <= i < s.len() && s[i] == c
            && forall|j: int| i < j < s.len() ==> s[j] != c,
        last_index_of(s, c) is None ==> forall|j: int| 0 <= j < s.len() ==> s[j] != c,
    decreases s.len(),
{
    if s.len() > 0 && s.last() != c {
        let t = s.drop_last();
        lemma_last_index_of(t, c);
        assert forall|j: int| 0 <= j < s.len() - 1 implies #[trigger] s[j] == t[j] by {}
        assert(s[s.len() - 1] != c);
    }
}

fn last_index_exec(s: &[char], c: char) -> (r: Option<usize>)
    ensures
        match last_index_of(s@, c) {
            Some(i) => r == Some(i as usize),
            None => r is None,
        },
{
    let mut k: usize = s.len();
    assert(s@.take(k as int) =~= s@);
    while k > 0
        invariant
            k <= s.len(),
            last_index_of(s@, c) == last_index_of(s@.take(k as int), c),
        decreases k,
    {
        let ghost t = s@.take(k as int);
        assert(t.drop_last() =~= s@.take(k - 1));
        if s[k - 1] == c {
            return Some(k - 1);
        }
        k -= 1;
    }
    None
}

/// The arguments text of a tool call after a new chunk. Providers send
/// either pieces of the JSON text or snapshots of all of it; snapshots
/// replace the text (also the last object of a chunk that holds several
/// glued together), repeats and extensions are merged, and other pieces are
/// appended.
pub open spec fn tool_arguments_step(base: Seq<char>, chunk: Seq<char>) -> Seq<char> {
    let t = trim_seq(chunk);
    if chunk.len() == 0 {
        base
    } else if base.len() == 0 {
        chunk
    } else if contains_seq(t, "}{"@) && last_index_of(t, '{') is Some
        && starts_with(trim_seq(t.skip(last_index_of(t, '{')->0)), "{"@)
        && json_text_parses(trim_seq(t.skip(last_index_of(t, '{')->0))) {
        trim_seq(t.skip(last_index_of(t, '{')->0))
    } else if starts_with(t, "{"@) && json_text_parses(t) {
        t
    } else if chunk == base || t == base {
        base
    } else if starts_with(chunk, base) {
        chunk
    } else if starts_with(t, base) {
        t
    } else {
        base + chunk
    }
}

/// Merges a chunk of a tool call's arguments (see `tool_arguments_step`).
pub fn append_tool_arguments_chunk(base: &mut String, chunk: &str)
    ensures
        final(base)@ == tool_arguments_step(old(base)@, chunk@),
{
    let cs = chars_of(chunk);
    if cs.len() == 0 {
        return;
    }
    let trimmed = trim_chars(cs.as_slice());
    let bs = chars_of(base.as_str());
    if bs.len() == 0 {
        *base = owned(chunk);
        return;
    }
    let glued = chars_of("}{");
    let open = chars_of("{");
    if chars_contains(trimmed.as_slice(), glued.as_slice()) {
        match last_index_exec(trimmed.as_slice(), '{') {
            Some(start) => {
                proof {
                    lemma_last_index_of(trimmed@, '{');
                }
                let rest = slice_chars(trimmed.as_slice(), start, trimmed.len());
                assert(rest@ =~= trimmed@.skip(start as int));
                let tail = trim_chars(rest.as_slice());
                let tail_text = string_of(tail.as_slice());
                if chars_starts_with(tail.as_slice(), open.as_slice()) && json_parses(tail_text.as_str()) {
                    *base = tail_text;
                    return;
                }
            },
            None => {},
        }
    }
    let trimmed_text = string_of(trimmed.as_slice());
    if chars_starts_with(trimmed.as_slice(), open.as_slice()) && json_parses(trimmed_text.as_str()) {
        *base = trimmed_text;
        return;
    }
    if chars_eq(cs.as_slice(), bs.as_slice()) || chars_eq(trimmed.as_slice(), bs.as_slice()) {
        return;
    }
    if chars_starts_with(cs.as_slice(), bs.as_slice()) {
        *base = owned(chunk);
        return;
    }
    if chars_starts_with(trimmed.as_slice(), bs.as_slice()) {
        *base = trimmed_text;
        return;
    }
    let mut joined = bs;
    push_all(&mut joined, cs.as_slice());
    *base = string_of(joined.as_slice());
}

pub open spec fn detail_texts(details: Seq<ChatReasoningDetail>) -> Seq<Seq<char>>
    decreases details.len(),
{
    if details.len() == 0 {
        Seq::empty()
    } else {
        let rest = detail_texts(details.drop_last());
        match details.last().text {
            Some(t) => rest.push(t@),
            None => rest,
        }
    }
}

/// The reasoning text of reasoning details: their texts run together and
/// trimmed, unless that is empty.
pub open spec fn reasoning_text_of(details: Option<Seq<ChatReasoningDetail>>) -> Option<Seq<char>> {
    match details {
        None => None,
        Some(ds) => {
            let t = trim_seq(join_seq(detail_texts(ds), Seq::empty()));
            if t.len() == 0 {
                None
            } else {
                Some(t)
            }
        },
    }
}

/// Reads the reasoning text out of reasoning details.
pub fn extract_reasoning_text_from_details(details: Option<&[ChatReasoningDetail]>) -> (r: Option<String>)
    ensures
        opt_view(r) == reasoning_text_of(match details {
            Some(d) => Some(d@),
            None => None,
        }),
{
    let ds = match details {
        Some(d) => d,
        None => {
            return None;
        },
    };
    let mut parts: Vec<Vec<char>> = Vec::new();
    let mut i: usize = 0;
    while i < ds.len()
        invariant
            i <= ds.len(),
            views(parts@) =~= detail_texts(ds@.take(i as int)),
        decreases ds.len() - i,
    {
        proof {
            assert(ds@.take(i + 1).drop_last() =~= ds@.take(i as int));
            assert(ds@.take(i + 1).last() == ds@[i as int]);
        }
        match &ds[i].text {
            Some(t) => {
                let ghost before = parts@;
                parts.push(chars_of(t.as_str()));
                assert(views(parts@) =~= views(before).push(t@));
            },
            None => {},
        }
        i += 1;
    }
    assert(ds@.take(ds.len() as int) =~= ds@);
    let empty: Vec<char> = Vec::new();
    let joined = join_chars(&parts, empty.as_slice());
    let t = trim_chars(joined.as_slice());
    if t.len() == 0 {
        None
    } else {
        Some(string_of(t.as_slice()))
    }
}

/// The reasoning detail that carries a text in MiniMax's format.
pub open spec fn is_text_reasoning_detail(d: ChatReasoningDetail, text: Seq<char>) -> bool {
    &&& d.text matches Some(t) && t@ == text
    &&& d.detail_type matches Some(dt) && dt@ == "reasoning.text"@
    &&& d.format matches Some(f) && f@ == "MiniMax-response-v1"@
    &&& d.id matches Some(id) && id@ == "reasoning-text-1"@
    &&& d.index == Some(0usize)
}

/// Wraps a reasoning text into the one reasoning detail that MiniMax
/// expects back: the text trimmed, typed `reasoning.text`, in the format
/// `MiniMax-response-v1`, with id `reasoning-text-1` and index 0. A blank
/// text gives nothing.
pub fn reasoning_details_from_text(text: &str) -> (r: Option<Vec<ChatReasoningDetail>>)
    ensures
        trim_seq(text@).len() == 0 <==> r is None,
        r matches Some(v) ==> v@.len() == 1 && is_text_reasoning_detail(v@[0], trim_seq(text@)),
{
    let cs = chars_of(text);
    let t = trim_chars(cs.as_slice());
    if t.len() == 0 {
        return None;
    }
    let mut v: Vec<ChatReasoningDetail> = Vec::new();
    v.push(ChatReasoningDetail {
        text: Some(string_of(t.as_slice())),
        detail_type: Some(owned("reasoning.text")),
        format: Some(owned("MiniMax-response-v1")),
        id: Some(owned("reasoning-text-1")),
        index: Some(0),
    });
    Some(v)
}

/// `role.trim().eq_ignore_ascii_case("system")`.
pub open spec fn is_system_role_spec(role: Seq<char>) -> bool {
    lower_seq(trim_seq(role)) == "system"@
}

/// Whether a message role is the system role, ignoring surrounding
/// whitespace and ASCII case.
pub fn is_system_role(role: &str) -> (r: bool)
    ensures
        r == is_system_role_spec(role@),
{
    let cs = chars_of(role);
    let t = trim_chars(cs.as_slice());
    let l = lower_chars(t.as_slice());
    let s = chars_of("system");
    chars_eq(l.as_slice(), s.as_slice())
}

/// Whether a model name names a MiniMax model (`minimax-…`, ignoring
/// surrounding whitespace and ASCII case).
pub fn is_minimax_model(model: &str) -> (r: bool)
    ensures
        r == starts_with(lower_seq(trim_seq(model@)), "minimax-"@),
{
    let cs = chars_of(model);
    let t = trim_chars(cs.as_slice());
    let l = lower_chars(t.as_slice());
    let p = chars_of("minimax-");
    chars_starts_with(l.as_slice(), p.as_slice())
}

/// How many messages at the start are system messages.
pub open spec fn leading_system_count(messages: Seq<ChatMessage>) -> nat
    decreases messages.len(),
{
    if messages.len() > 0 && is_system_role_spec(messages[0].role@) {
        1 + leading_system_count(messages.drop_first())
    } else {
        0
    }
}

proof fn lemma_leading_system_count(messages: Seq<ChatMessage>, k: int)
    requires
        0 <= k <= messages.len(),
        forall|j: int| 0 <= j < k ==> is_system_role_spec(#[trigger] messages[j].role@),
        k == messages.len() || !is_system_role_spec(messages[k].role@),
    ensures
        leading_system_count(messages) == k,
    decreases k,
{
    if k > 0 {
        let t = messages.drop_first();
        assert forall|j: int| 0 <= j < k - 1 implies is_system_role_spec(#[trigger] t[j].role@) by {
            assert(t[j] == messages[j + 1]);
        }
        if k - 1 < t.len() {
            assert(t[k - 1] == messages[k]);
        }
        lemma_leading_system_count(t, k - 1);
    }
}

/// The trimmed, non-blank contents of some messages, in order.
pub open spec fn system_parts(messages: Seq<ChatMessage>) -> Seq<Seq<char>>
    decreases messages.len(),
{
    if messages.len() == 0 {
        Seq::empty()
    } else {
        let rest = system_parts(messages.drop_last());
        match messages.last().content {
            Some(c) => if trim_seq(c@).len() > 0 {
                rest.push(trim_seq(c@))
            } else {
                rest
            },
            None => rest,
        }
    }
}

/// A plain message with a role and text.
pub open spec fn is_plain_message(m: ChatMessage, role: Seq<char>, content: Seq<char>) -> bool {
    &&& m.role@ == role
    &&& m.content matches Some(c) && c@ == content
    &&& m.tool_calls is None
    &&& m.tool_call_id is None
    &&& m.reasoning_details is None
    &&& m.reasoning is None
}

/// Some providers take a single system message: when a conversation starts
/// with several, their non-blank contents (trimmed) are joined by a blank
/// line into one system message, which is left out when they are all
/// blank; the other messages follow unchanged.
pub fn merge_leading_system_messages(messages: Vec<ChatMessage>) -> (r: Vec<ChatMessage>)
    ensures
        leading_system_count(messages@) <= 1 ==> r@ == messages@,
        leading_system_count(messages@) > 1 ==> {
            let k = leading_system_count(messages@) as int;
            let parts = system_parts(messages@.take(k));
            &&& parts.len() == 0 ==> r@ == messages@.skip(k)
            &&& parts.len() > 0 ==> r@.len() == messages@.len() - k + 1
                && is_plain_message(r@[0], "system"@, join_seq(parts, "\n\n"@))
                && r@.skip(1) == messages@.skip(k)
        },
{
    let mut k: usize = 0;
    while k < messages.len() && is_system_role(messages[k].role.as_str())
        invariant
            k <= messages.len(),
            forall|j: int| 0 <= j < k ==> is_system_role_spec(#[trigger] messages@[j].role@),
        decreases messages.len() - k,
    {
        k += 1;
    }
    proof {
        lemma_leading_system_count(messages@, k as int);
    }
    if k <= 1 {
        return messages;
    }
    let mut parts: Vec<Vec<char>> = Vec::new();
    let mut i: usize = 0;
    while i < k
        invariant
            i <= k <= messages.len(),
            views(parts@) =~= system_parts(messages@.take(i as int)),
        decreases k - i,
    {
        proof {
            assert(messages@.take(i + 1).drop_last() =~= messages@.take(i as int));
            assert(messages@.take(i + 1).last() == messages@[i as int]);
        }
        match &messages[i].content {
            Some(c) => {
                let cs = chars_of(c.as_str());
                let t = trim_chars(cs.as_slice());
                if t.len() > 0 {
                    let ghost before = parts@;
                    parts.push(t);
                    assert(views(parts@) =~= views(before).push(trim_seq(c@)));
                }
            },
            None => {},
        }
        i += 1;
    }
    let mut normalized: Vec<ChatMessage> = Vec::new();
    let has_parts = parts.len() > 0;
    if has_parts {
        let sep = chars_of("\n\n");
        let joined = join_chars(&parts, sep.as_slice());
        normalized.push(ChatMessage {
            role: owned("system"),
            content: Some(string_of(joined.as_slice())),
            tool_calls: None,
            tool_call_id: None,
            reasoning_details: None,
            reasoning: None,
        });
    }
    let mut head = messages;
    let mut tail = head.split_off(k);
    normalized.append(&mut tail);
    proof {
        if has_parts {
            assert(normalized@.skip(1) =~= messages@.skip(k as int));
        } else {
            assert(normalized@ =~= messages@.skip(k as int));
        }
    }
    normalized
}

/// A tool call being assembled from streamed pieces.
#[derive(Debug, Clone)]
pub struct ToolCallBuilder {
    pub id: Option<String>,
    pub name: Option<String>,
    pub arguments: String,
}

/// A tool call being assembled, seen through its text.
pub struct BuilderModel {
    pub id: Option<Seq<char>>,
    pub name: Option<Seq<char>>,
    pub arguments: Seq<char>,
}

pub open spec fn builder_model(b: ToolCallBuilder) -> BuilderModel {
    BuilderModel { id: opt_view(b.id), name: opt_view(b.name), arguments: b.arguments@ }
}

pub open spec fn empty_builder() -> BuilderModel {
    BuilderModel { id: None, name: None, arguments: Seq::empty() }
}

/// A builder after one streamed piece: a given id or name replaces the old
/// one, and an arguments chunk is merged (see `tool_arguments_step`).
pub open spec fn builder_step(b: BuilderModel, id: Option<Seq<char>>, name: Option<Seq<char>>, arguments: Option<Seq<char>>) -> BuilderModel {
    BuilderModel {
        id: match id {
            Some(v) => Some(v),
            None => b.id,
        },
        name: match name {
            Some(v) => Some(v),
            None => b.name,
        },
        arguments: match arguments {
            Some(a) => tool_arguments_step(b.arguments, a),
            None => b.arguments,
        },
    }
}

pub open spec fn entry_models(entries: Seq<(usize, ToolCallBuilder)>) -> Seq<(usize, BuilderModel)> {
    entries.map_values(|e: (usize, ToolCallBuilder)| (e.0, builder_model(e.1)))
}

/// The entries are ordered by strictly growing index.
pub open spec fn entries_sorted(entries: Seq<(usize, BuilderModel)>) -> bool {
    forall|i: int, j: int| 0 <= i < j < entries.len() ==> #[trigger] entries[i].0 < #[trigger] entries[j].0
}

/// The builder of a tool call index.
pub open spec fn builder_at(entries: Seq<(usize, BuilderModel)>, index: usize) -> Option<BuilderModel> {
    if exists|i: int| 0 <= i < entries.len() && entries[i].0 == index {
        Some(entries[choose|i: int| 0 <= i < entries.len() && entries[i].0 == index].1)
    } else {
        None
    }
}

/// The entries of the other indexes, in order.
pub open spec fn entries_except(entries: Seq<(usize, BuilderModel)>, index: usize) -> Seq<(usize, BuilderModel)> {
    entries.filter(|e: (usize, BuilderModel)| e.0 != index)
}

/// What a streaming answer has gathered so far.
pub struct StreamAccumulator {
    pub content: String,
    pub reasoning: String,
    pub builders: Vec<(usize, ToolCallBuilder)>,
    pub cancelled: bool,
}

/// A finished tool call: id, name and arguments.
pub open spec fn call_model(c: ChatToolCall) -> (Seq<char>, Seq<char>, Seq<char>) {
    (c.id@, c.function.name@, c.function.arguments@)
}

/// The id given to a tool call that streamed none: `tool_call_<index>`.
pub open spec fn default_call_id(index: usize) -> Seq<char> {
    "tool_call_"@ + crate::text::decimal_seq(index as nat)
}

/// The tool calls of a finished answer: one per builder that got a
/// non-empty name, in index order, with the streamed id or the default one.
pub open spec fn finished_calls(entries: Seq<(usize, BuilderModel)>) -> Seq<(Seq<char>, Seq<char>, Seq<char>)>
    decreases entries.len(),
{
    if entries.len() == 0 {
        Seq::empty()
    } else {
        let rest = finished_calls(entries.drop_last());
        let (index, b) = entries.last();
        let name = match b.name {
            Some(n) => n,
            None => Seq::empty(),
        };
        if name.len() == 0 {
            rest
        } else {
            rest.push((
                match b.id {
                    Some(id) => id,
                    None => default_call_id(index),
                },
                name,
                b.arguments,
            ))
        }
    }
}

impl StreamAccumulator {
    pub open spec fn wf(self) -> bool {
        entries_sorted(entry_models(self.builders@))
    }

    /// Nothing received yet.
    pub fn new() -> (r: Self)
        ensures
            r.wf(),
            r.content@.len() == 0,
            r.reasoning@.len() == 0,
            r.builders@.len() == 0,
            !r.cancelled,
    {
        StreamAccumulator { content: String::new(), reasoning: String::new(), builders: Vec::new(), cancelled: false }
    }

    /// A piece of the answer's text: appended and reported when not empty.
    pub fn add_content(&mut self, chunk: String) -> (r: Option<LlmStreamEvent>)
        ensures
            final(self).reasoning == old(self).reasoning,
            final(self).builders == old(self).builders,
            final(self).cancelled == old(self).cancelled,
            final(self).content@ == old(self).content@ + chunk@,
            chunk@.len() == 0 <==> r is None,
            r matches Some(e) ==> (e matches LlmStreamEvent::Content(t) && t@ == chunk@),
    {
        let cs = chars_of(chunk.as_str());
        if cs.len() == 0 {
            assert(self.content@ + chunk@ =~= self.content@);
            return None;
        }
        let mut all = chars_of(self.content.as_str());
        push_all(&mut all, cs.as_slice());
        self.content = string_of(all.as_slice());
        Some(LlmStreamEvent::Content(chunk))
    }

    /// A piece of reasoning: merged (see `reasoning_step`) and what it added
    /// reported.
    pub fn add_reasoning(&mut self, chunk: &str) -> (r: Option<LlmStreamEvent>)
        ensures
            final(self).content == old(self).content,
            final(self).builders == old(self).builders,
            final(self).cancelled == old(self).cancelled,
            final(self).reasoning@ == reasoning_step(old(self).reasoning@, chunk@).0,
            match reasoning_step(old(self).reasoning@, chunk@).1 {
                Some(d) => r matches Some(e) && (e matches LlmStreamEvent::Reasoning(t) && t@ == d),
                None => r is None,
            },
    {
        match append_reasoning_chunk(&mut self.reasoning, chunk) {
            Some(d) => Some(LlmStreamEvent::Reasoning(d)),
            None => None,
        }
    }

    /// A piece of a tool call: the builder of its index (a new one when the
    /// index is new) takes the piece (see `builder_step`), and the piece is
    /// reported.
    pub fn add_tool_call_chunk(&mut self, index: usize, id: Option<String>, name: Option<String>, arguments: Option<String>) -> (r: LlmStreamEvent)
        requires
            old(self).wf(),
        ensures
            final(self).wf(),
            final(self).content == old(self).content,
            final(self).reasoning == old(self).reasoning,
            final(self).cancelled == old(self).cancelled,
            entries_except(entry_models(final(self).builders@), index) == entries_except(entry_models(old(self).builders@), index),
            builder_at(entry_models(final(self).builders@), index) == Some(builder_step(
                match builder_at(entry_models(old(self).builders@), index) {
                    Some(b) => b,
                    None => empty_builder(),
                },
                opt_view(id),
                opt_view(name),
                opt_view(arguments),
            )),
            r matches LlmStreamEvent::ToolCallDelta(d) && d.index == index && d.id == id && d.name == name
                && d.arguments_chunk == arguments,
    {
        let ghost old_models = entry_models(self.builders@);
        let mut p: usize = 0;
        while p < self.builders.len() && self.builders[p].0 < index
            invariant
                p <= self.builders.len(),
                self.builders@ == old(self).builders@,
                forall|j: int| 0 <= j < p ==> #[trigger] self.builders@[j].0 < index,
            decreases self.builders.len() - p,
        {
            p += 1;
        }
        let found = p < self.builders.len() && self.builders[p].0 == index;
        let mut builder = if found {
            let b = &self.builders[p].1;
            ToolCallBuilder { id: b.id.clone(), name: b.name.clone(), arguments: b.arguments.clone() }
        } else {
            ToolCallBuilder { id: None, name: None, arguments: String::new() }
        };
        proof {
            reveal(Seq::filter);
            if found {
                assert(old_models[p as int].0 == index);
                assert forall|j: int| 0 <= j < old_models.len() && old_models[j].0 == index implies j == p by {
                    if j < p {
                        assert(self.builders@[j].0 < index);
                    } else if j > p {
                        assert(old_models[p as int].0 < old_models[j].0);
                    }
                }
                assert(builder_model(builder) == old_models[p as int].1);
            } else {
                assert forall|j: int| 0 <= j < old_models.len() implies old_models[j].0 != index by {
                    if j >= p {
                        assert(p < old_models.len() ==> old_models[p as int].0 > index);
                        if j > p {
                            assert(old_models[p as int].0 < old_models[j].0);
                        }
                    } else {
                        assert(self.builders@[j].0 < index);
                    }
                }
            }
        }
        let ghost start = builder_model(builder);
        if let Some(v) = &id {
            builder.id = Some(v.clone());
        }
        if let Some(v) = &name {
            builder.name = Some(v.clone());
        }
        if let Some(a) = &arguments {
            append_tool_arguments_chunk(&mut builder.arguments, a.as_str());
        }
        assert(builder_model(builder) == builder_step(start, opt_view(id), opt_view(name), opt_view(arguments)));
        let ghost new_b = builder_model(builder);
        if found {
            self.builders.set(p, (index, builder));
            proof {
                lemma_entries_update(old_models, p as int, index, new_b);
                assert(entry_models(self.builders@) =~= old_models.update(p as int, (index, new_b)));
            }
        } else {
            self.builders.insert(p, (index, builder));
            proof {
                lemma_entries_insert(old_models, p as int, index, new_b);
                assert(entry_models(self.builders@) =~= old_models.insert(p as int, (index, new_b)));
            }
        }
        LlmStreamEvent::ToolCallDelta(ToolCallDelta { index, id, name, arguments_chunk: arguments })
    }
}

proof fn lemma_filter_update(s: Seq<(usize, BuilderModel)>, p: int, index: usize, b: BuilderModel)
    requires
        0 <= p < s.len(),
        s[p].0 == index,
    ensures
        entries_except(s.update(p, (index, b)), index) == entries_except(s, index),
    decreases s.len(),
{
    reveal(Seq::filter);
    let t = s.update(p, (index, b));
    if p == s.len() - 1 {
        assert(t.drop_last() =~= s.drop_last());
    } else {
        assert(t.drop_last() =~= s.drop_last().update(p, (index, b)));
        lemma_filter_update(s.drop_last(), p, index, b);
    }
}

proof fn lemma_filter_insert(s: Seq<(usize, BuilderModel)>, p: int, index: usize, b: BuilderModel)
    requires
        0 <= p <= s.len(),
    ensures
        entries_except(s.insert(p, (index, b)), index) == entries_except(s, index),
    decreases s.len(),
{
    reveal(Seq::filter);
    let t = s.insert(p, (index, b));
    if p == s.len() {
        assert(t.drop_last() =~= s);
    } else {
        assert(t.drop_last() =~= s.drop_last().insert(p, (index, b)));
        assert(t.last() == s.last());
        lemma_filter_insert(s.drop_last(), p, index, b);
    }
}

proof fn lemma_entries_update(s: Seq<(usize, BuilderModel)>, p: int, index: usize, b: BuilderModel)
    requires
        entries_sorted(s),
        0 <= p < s.len(),
        s[p].0 == index,
    ensures
        entries_sorted(s.update(p, (index, b))),
        entries_except(s.update(p, (index, b)), index) == entries_except(s, index),
        builder_at(s.update(p, (index, b)), index) == Some(b),
{
    let t = s.update(p, (index, b));
    lemma_filter_update(s, p, index, b);
    assert forall|j: int| 0 <= j < t.len() && t[j].0 == index implies j == p by {
        if j != p {
            assert(t[j] == s[j]);
            if j < p {
                assert(s[j].0 < s[p].0);
            } else {
                assert(s[p].0 < s[j].0);
            }
        }
    }
    assert(t[p].0 == index);
}

proof fn lemma_entries_insert(s: Seq<(usize, BuilderModel)>, p: int, index: usize, b: BuilderModel)
    requires
        entries_sorted(s),
        0 <= p <= s.len(),
        forall|j: int| 0 <= j < p ==> #[trigger] s[j].0 < index,
        p < s.len() ==> s[p].0 > index,
    ensures
        entries_sorted(s.insert(p, (index, b))),
        entries_except(s.insert(p, (index, b)), index) == entries_except(s, index),
        builder_at(s.insert(p, (index, b)), index) == Some(b),
{
    let t = s.insert(p, (index, b));
    lemma_filter_insert(s, p, index, b);
    assert forall|i: int, j: int| 0 <= i < j < t.len() implies #[trigger] t[i].0 < #[trigger] t[j].0 by {
        if j < p {
            assert(t[i] == s[i] && t[j] == s[j]);
        } else if j == p {
            assert(t[i] == s[i]);
        } else if i < p {
            assert(t[i] == s[i] && t[j] == s[j - 1]);
            if p < s.len() {
                assert(s[p].0 > index);
                if j - 1 > p {
                    assert(s[p].0 < s[j - 1].0);
                }
            }
        } else if i == p {
            assert(t[j] == s[j - 1]);
            if j - 1 > p {
                assert(s[p].0 < s[j - 1].0);
            }
        } else {
            assert(t[i] == s[i - 1] && t[j] == s[j - 1]);
        }
    }
    assert forall|j: int| 0 <= j < t.len() && t[j].0 == index implies j == p by {
        if j < p {
            assert(t[j] == s[j]);
        } else if j > p {
            assert(t[j] == s[j - 1]);
            if j - 1 > p {
                assert(s[p].0 < s[j - 1].0);
            }
        }
    }
    assert(t[p].0 == index);
}

impl StreamAccumulator {
    /// The whole answer: its text and reasoning, the reasoning as a detail
    /// (see `reasoning_details_from_text`), and the tool calls of the
    /// builders that got a name (see `finished_calls`), each of type
    /// `function`.
    pub fn finish(self) -> (r: LlmStreamResult)
        ensures
            r.content == self.content,
            r.reasoning == self.reasoning,
            r.cancelled == self.cancelled,
            trim_seq(self.reasoning@).len() == 0 <==> r.reasoning_details is None,
            r.reasoning_details matches Some(v) ==> v@.len() == 1
                && is_text_reasoning_detail(v@[0], trim_seq(self.reasoning@)),
            r.tool_calls@.map_values(|c: ChatToolCall| call_model(c)) == finished_calls(entry_models(self.builders@)),
            forall|i: int| 0 <= i < r.tool_calls@.len() ==> (#[trigger] r.tool_calls@[i]).call_type@ == "function"@,
    {
        let ghost entries = entry_models(self.builders@);
        let mut calls: Vec<ChatToolCall> = Vec::new();
        let mut i: usize = 0;
        while i < self.builders.len()
            invariant
                i <= self.builders.len(),
                entries == entry_models(self.builders@),
                calls@.map_values(|c: ChatToolCall| call_model(c)) =~= finished_calls(entries.take(i as int)),
                forall|j: int| 0 <= j < calls@.len() ==> (#[trigger] calls@[j]).call_type@ == "function"@,
            decreases self.builders.len() - i,
        {
            proof {
                assert(entries.take(i + 1).drop_last() =~= entries.take(i as int));
                assert(entries.take(i + 1).last() == entries[i as int]);
            }
            let (index, b) = &self.builders[i];
            let name = match &b.name {
                Some(n) => n.clone(),
                None => String::new(),
            };
            if !name.as_str().is_empty() {
                let id = match &b.id {
                    Some(v) => v.clone(),
                    None => {
                        let mut t = chars_of("tool_call_");
                        crate::text::push_decimal(&mut t, *index as u64);
                        string_of(t.as_slice())
                    },
                };
                let ghost before = calls@;
                calls.push(ChatToolCall {
                    id,
                    call_type: owned("function"),
                    function: ChatToolCallFunction { name, arguments: b.arguments.clone() },
                });
                assert(calls@.map_values(|c: ChatToolCall| call_model(c)) =~= before.map_values(|c: ChatToolCall| call_model(c)).push(call_model(calls@.last())));
            }
            i += 1;
        }
        assert(entries.take(self.builders.len() as int) =~= entries);
        let reasoning_details = reasoning_details_from_text(self.reasoning.as_str());
        LlmStreamResult {
            content: self.content,
            reasoning: self.reasoning,
            reasoning_details,
            tool_calls: calls,
            cancelled: self.cancelled,
        }
    }
}

/// The JSON text `serde_json::to_string` gives of a list of string pairs.
pub uninterp spec fn json_pairs_text(pairs: Seq<(Seq<char>, Seq<char>)>) -> Seq<char>;

/// Calls `serde_json::to_string` on a list of pairs of strings (an array of
/// two-element arrays). The text depends on the pairs alone; it is named
/// `json_pairs_text`. Serialising strings cannot fail; were it to, the
/// text would be empty, as `unwrap_or_default` gives.
#[verifier::external_body]
fn json_of_pairs(pairs: &Vec<(String, String)>) -> (r: String)
    ensures
        r@ == json_pairs_text(pairs@.map_values(|p: (String, String)| (p.0@, p.1@))),
{
    serde_json::to_string(pairs).unwrap_or_default()
}

/// What identifies a round of tool calls: the JSON text of the list of
/// (name, arguments) pairs of its calls.
pub open spec fn round_signature(tool_calls: Seq<ChatToolCall>) -> Seq<char> {
    json_pairs_text(tool_calls.map_values(|c: ChatToolCall| (c.function.name@, c.function.arguments@)))
}

/// The signature of a round of tool calls (see `round_signature`).
pub fn build_tool_round_signature(tool_calls: &[ChatToolCall]) -> (r: String)
    ensures
        r@ == round_signature(tool_calls@),
{
    let mut pairs: Vec<(String, String)> = Vec::new();
    let mut i: usize = 0;
    while i < tool_calls.len()
        invariant
            i <= tool_calls.len(),
            pairs@.map_values(|p: (String, String)| (p.0@, p.1@)) =~= tool_calls@.take(i as int).map_values(
                |c: ChatToolCall| (c.function.name@, c.function.arguments@),
            ),
        decreases tool_calls.len() - i,
    {
        let c = &tool_calls[i];
        let ghost before = pairs@;
        pairs.push((c.function.name.clone(), c.function.arguments.clone()));
        assert(pairs@.map_values(|p: (String, String)| (p.0@, p.1@)) =~= before.map_values(
            |p: (String, String)| (p.0@, p.1@),
        ).push((c.function.name@, c.function.arguments@)));
        i += 1;
        proof {
            assert(tool_calls@.take(i as int) =~= tool_calls@.take(i - 1).push(tool_calls@[i - 1]));
        }
    }
    assert(tool_calls@.take(tool_calls.len() as int) =~= tool_calls@);
    json_of_pairs(&pairs)
}

/// A part of a structured message content: its `type` and `text` when
/// they are strings.
#[derive(Debug, Clone)]
pub struct ContentPart {
    pub part_type: Option<String>,
    pub text: Option<String>,
}

/// The `content` of an assistant message in a reply.
#[derive(Debug, Clone)]
pub enum AssistantContent {
    /// A string.
    Text(String),
    /// An array of parts.
    Parts(Vec<ContentPart>),
    /// Anything else.
    Other,
}

/// The texts of the parts of type `text`, joined.
pub open spec fn text_parts_joined(parts: Seq<ContentPart>) -> Seq<char>
    decreases parts.len(),
{
    if parts.len() == 0 {
        Seq::empty()
    } else {
        let last = parts.last();
        text_parts_joined(parts.drop_last()) + match (last.part_type, last.text) {
            (Some(t), Some(x)) => if t@ == "text"@ { x@ } else { Seq::empty() },
            _ => Seq::empty(),
        }
    }
}

/// The text of an assistant message's content: a string as it is; for
/// parts, the texts of the `text` parts joined, unless that is empty.
pub open spec fn assistant_content_text(c: AssistantContent) -> Option<Seq<char>> {
    match c {
        AssistantContent::Text(t) => Some(t@),
        AssistantContent::Parts(parts) => {
            let merged = text_parts_joined(parts@);
            if merged.len() == 0 {
                None
            } else {
                Some(merged)
            }
        },
        AssistantContent::Other => None,
    }
}

/// Reads the text of an assistant message's content (see
/// `assistant_content_text`).
pub fn extract_assistant_content_text(content: &AssistantContent) -> (r: Option<String>)
    ensures
        opt_view(r) == assistant_content_text(*content),
{
    match content {
        AssistantContent::Text(t) => Some(t.clone()),
        AssistantContent::Parts(parts) => {
            let mut merged: Vec<char> = Vec::new();
            let mut i: usize = 0;
            while i < parts.len()
                invariant
                    i <= parts.len(),
                    merged@ == text_parts_joined(parts@.take(i as int)),
                decreases parts.len() - i,
            {
                proof {
                    assert(parts@.take(i + 1).drop_last() =~= parts@.take(i as int));
                    assert(parts@.take(i + 1).last() == parts@[i as int]);
                }
                let ghost before = merged@;
                match (&parts[i].part_type, &parts[i].text) {
                    (Some(t), Some(x)) => {
                        if str_eq(t.as_str(), "text") {
                            let xc = chars_of(x.as_str());
                            push_all(&mut merged, xc.as_slice());
                        } else {
                            assert(merged@ =~= before + Seq::<char>::empty());
                        }
                    },
                    _ => {
                        assert(merged@ =~= before + Seq::<char>::empty());
                    },
                }
                i += 1;
            }
            assert(parts@.take(parts.len() as int) =~= parts@);
            if merged.len() == 0 {
                None
            } else {
                Some(string_of(merged.as_slice()))
            }
        },
        AssistantContent::Other => None,
    }
}


/// An event of an Anthropic message stream, as the streaming loop reads
/// it: the fields it uses, as plain values.
#[derive(Debug, Clone)]
pub enum AnthropicEvent {
    /// `content_block_start` of a `tool_use` block: the block's index, its
    /// `id` and `name` when strings, and the JSON text of its `input`
    /// unless that is absent or null.
    ToolUseStart { index: usize, id: Option<String>, name: Option<String>, input: Option<String> },
    /// `content_block_delta` of type `text_delta`, with its `text` when a string.
    TextDelta { text: Option<String> },
    /// `content_block_delta` of type `thinking_delta`, with its `thinking` when a string.
    ThinkingDelta { thinking: Option<String> },
    /// `content_block_delta` of type `input_json_delta`: the block's index
    /// and its `partial_json` when a string.
    InputJsonDelta { index: usize, partial_json: Option<String> },
    /// `message_stop`.
    MessageStop,
    /// Any other event.
    Other,
}

/// The builder an index has, or an empty one.
pub open spec fn builder_or_empty(entries: Seq<(usize, BuilderModel)>, index: usize) -> BuilderModel {
    match builder_at(entries, index) {
        Some(b) => b,
        None => empty_builder(),
    }
}

/// The event reporting a tool call piece, with the builder's id and name
/// after the piece.
pub open spec fn is_tool_delta_event(e: LlmStreamEvent, index: usize, b: BuilderModel, chunk: Seq<char>) -> bool {
    e matches LlmStreamEvent::ToolCallDelta(d) && d.index == index && opt_view(d.id) == b.id
        && opt_view(d.name) == b.name && opt_view(d.arguments_chunk) == Some(chunk)
}

impl StreamAccumulator {
    /// The id and name the builder of an index has.
    fn builder_id_name(&self, index: usize) -> (r: (Option<String>, Option<String>))
        requires
            self.wf(),
            builder_at(entry_models(self.builders@), index) is Some,
        ensures
            opt_view(r.0) == builder_at(entry_models(self.builders@), index)->0.id,
            opt_view(r.1) == builder_at(entry_models(self.builders@), index)->0.name,
    {
        let ghost m = entry_models(self.builders@);
        let mut i: usize = 0;
        while i < self.builders.len()
            invariant
                i <= self.builders@.len(),
                m == entry_models(self.builders@),
                entries_sorted(m),
                builder_at(m, index) is Some,
                forall|j: int| 0 <= j < i ==> #[trigger] m[j].0 != index,
            decreases self.builders@.len() - i,
        {
            if self.builders[i].0 == index {
                proof {
                    assert(m[i as int].0 == index);
                    let k = choose|k: int| 0 <= k < m.len() && m[k].0 == index;
                    assert(k == i as int) by {
                        if k < i {
                            assert(m[k].0 != index);
                        } else if k > i {
                            assert(m[i as int].0 < m[k].0);
                        }
                    }
                    assert(builder_model(self.builders@[i as int].1) == m[i as int].1);
                }
                let b = &self.builders[i].1;
                let id = match &b.id { Some(v) => Some(owned(v.as_str())), None => None };
                let name = match &b.name { Some(v) => Some(owned(v.as_str())), None => None };
                return (id, name);
            }
            i += 1;
        }
        proof {
            let k = choose|k: int| 0 <= k < m.len() && m[k].0 == index;
            assert(m[k].0 != index);
        }
        (None, None)
    }

    /// Takes one event of an Anthropic message stream and gives the events
    /// to report, and whether the stream is over:
    /// - a `tool_use` block start: its builder takes the id, the name and
    ///   the input's text (see `builder_step`); the input, when there is
    ///   one, is reported with the builder's id and name;
    /// - a text or thinking piece that is not empty is appended to the
    ///   text or the reasoning and reported;
    /// - an `input_json_delta` piece goes to the builder of its index and is
    ///   reported with the builder's id and name;
    /// - `message_stop` ends the stream; other events change nothing.
    pub fn anthropic_event_step(&mut self, e: AnthropicEvent) -> (r: (Vec<LlmStreamEvent>, bool))
        requires
            old(self).wf(),
        ensures
            final(self).wf(),
            final(self).cancelled == old(self).cancelled,
            r.1 == (e is MessageStop),
            match e {
                AnthropicEvent::ToolUseStart { index, id, name, input } => {
                    let b = builder_step(builder_or_empty(entry_models(old(self).builders@), index),
                        opt_view(id), opt_view(name), opt_view(input));
                    &&& final(self).content == old(self).content
                    &&& final(self).reasoning == old(self).reasoning
                    &&& entries_except(entry_models(final(self).builders@), index) == entries_except(entry_models(old(self).builders@), index)
                    &&& builder_at(entry_models(final(self).builders@), index) == Some(b)
                    &&& match input {
                        Some(raw) => r.0@.len() == 1 && is_tool_delta_event(r.0@[0], index, b, raw@),
                        None => r.0@.len() == 0,
                    }
                },
                AnthropicEvent::InputJsonDelta { index, partial_json } => {
                    &&& final(self).content == old(self).content
                    &&& final(self).reasoning == old(self).reasoning
                    &&& match partial_json {
                        Some(p) => {
                            let b = builder_step(builder_or_empty(entry_models(old(self).builders@), index), None, None, Some(p@));
                            &&& entries_except(entry_models(final(self).builders@), index) == entries_except(entry_models(old(self).builders@), index)
                            &&& builder_at(entry_models(final(self).builders@), index) == Some(b)
                            &&& r.0@.len() == 1 && is_tool_delta_event(r.0@[0], index, b, p@)
                        },
                        None => final(self).builders == old(self).builders && r.0@.len() == 0,
                    }
                },
                AnthropicEvent::TextDelta { text } => {
                    &&& final(self).reasoning == old(self).reasoning
                    &&& final(self).builders == old(self).builders
                    &&& match text {
                        Some(t) => if t@.len() > 0 {
                            final(self).content@ == old(self).content@ + t@ && r.0@.len() == 1
                                && (r.0@[0] matches LlmStreamEvent::Content(c) && c@ == t@)
                        } else {
                            final(self).content == old(self).content && r.0@.len() == 0
                        },
                        None => final(self).content == old(self).content && r.0@.len() == 0,
                    }
                },
                AnthropicEvent::ThinkingDelta { thinking } => {
                    &&& final(self).content == old(self).content
                    &&& final(self).builders == old(self).builders
                    &&& match thinking {
                        Some(t) => if t@.len() > 0 {
                            final(self).reasoning@ == old(self).reasoning@ + t@ && r.0@.len() == 1
                                && (r.0@[0] matches LlmStreamEvent::Reasoning(c) && c@ == t@)
                        } else {
                            final(self).reasoning == old(self).reasoning && r.0@.len() == 0
                        },
                        None => final(self).reasoning == old(self).reasoning && r.0@.len() == 0,
                    }
                },
                _ => final(self).content == old(self).content && final(self).reasoning == old(self).reasoning
                    && final(self).builders == old(self).builders && r.0@.len() == 0,
            },
    {
        let mut events: Vec<LlmStreamEvent> = Vec::new();
        match e {
            AnthropicEvent::ToolUseStart { index, id, name, input } => {
                let has_input = input.is_some();
                let chunk = match &input { Some(raw) => Some(owned(raw.as_str())), None => None };
                let _ = self.add_tool_call_chunk(index, id, name, input);
                if has_input {
                    let (bid, bname) = self.builder_id_name(index);
                    events.push(LlmStreamEvent::ToolCallDelta(ToolCallDelta { index, id: bid, name: bname, arguments_chunk: chunk }));
                }
                (events, false)
            },
            AnthropicEvent::InputJsonDelta { index, partial_json } => {
                match partial_json {
                    Some(p) => {
                        let chunk = owned(p.as_str());
                        let _ = self.add_tool_call_chunk(index, None, None, Some(p));
                        let (bid, bname) = self.builder_id_name(index);
                        events.push(LlmStreamEvent::ToolCallDelta(ToolCallDelta { index, id: bid, name: bname, arguments_chunk: Some(chunk) }));
                    },
                    None => {},
                }
                (events, false)
            },
            AnthropicEvent::TextDelta { text } => {
                match text {
                    Some(t) => {
                        if !t.as_str().is_empty() {
                            match self.add_content(t) {
                                Some(ev) => events.push(ev),
                                None => {},
                            }
                        }
                    },
                    None => {},
                }
                (events, false)
            },
            AnthropicEvent::ThinkingDelta { thinking } => {
                match thinking {
                    Some(t) => {
                        if !t.as_str().is_empty() {
                            let mut all = chars_of(self.reasoning.as_str());
                            let cs = chars_of(t.as_str());
                            push_all(&mut all, cs.as_slice());
                            self.reasoning = string_of(all.as_slice());
                            events.push(LlmStreamEvent::Reasoning(t));
                        }
                    },
                    None => {},
                }
                (events, false)
            },
            AnthropicEvent::MessageStop => (events, true),
            AnthropicEvent::Other => (events, false),
        }
    }
}

/// Whether a refused streaming request is sent again without its tools:
/// only a request that had tools, refused with an error whose text holds
/// `invalid chat setting` in any ASCII case.
pub fn should_retry_without_tools(has_tools: bool, error_text: &str) -> (r: bool)
    ensures
        r == (has_tools && contains_seq(lower_seq(error_text@), "invalid chat setting"@)),
{
    if !has_tools {
        return false;
    }
    let lowered = lower_chars(chars_of(error_text).as_slice());
    let needle = chars_of("invalid chat setting");
    chars_contains(lowered.as_slice(), needle.as_slice())
}

/// How a streaming request to an OpenAI-compatible service is made.
#[derive(Debug, Clone, Copy, PartialEq, Eq, Structural)]
pub struct OpenAiRequestPlan {
    /// The leading system messages are merged into one.
    pub merge_system_messages: bool,
    /// `tool_choice` is sent as `auto`.
    pub tool_choice_auto: bool,
    /// The body asks for the reasoning apart (`reasoning_split`).
    pub reasoning_split: bool,
}

/// The request a model gets: a MiniMax model gets its system messages
/// merged, no `tool_choice`, and its reasoning apart; any other model gets
/// `tool_choice` `auto` when tools are offered.
pub fn openai_request_plan(model: &str, has_tools: bool) -> (r: OpenAiRequestPlan)
    ensures
        ({
            let minimax = starts_with(lower_seq(trim_seq(model@)), "minimax-"@);
            r == OpenAiRequestPlan {
                merge_system_messages: minimax,
                tool_choice_auto: has_tools && !minimax,
                reasoning_split: minimax,
            }
        }),
{
    let minimax = is_minimax_model(model);
    OpenAiRequestPlan { merge_system_messages: minimax, tool_choice_auto: has_tools && !minimax, reasoning_split: minimax }
}

/// The error of a streaming request that was refused, and of its retry
/// without tools when there was one.
pub fn stream_request_error(primary: &str, fallback: Option<&str>) -> (r: String)
    ensures
        r@ == match fallback {
            Some(f) => "API error: "@ + primary@ + "; fallback without tools failed: "@ + f@,
            None => "API error: "@ + primary@,
        },
{
    let mut out = chars_of("API error: ");
    push_all(&mut out, chars_of(primary).as_slice());
    if let Some(f) = fallback {
        push_all(&mut out, chars_of("; fallback without tools failed: ").as_slice());
        push_all(&mut out, chars_of(f).as_slice());
    }
    string_of(out.as_slice())
}
} // verus!
