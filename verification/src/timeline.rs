//! The timeline of a conversation stored before events were recorded: it
//! is rebuilt from the stored messages, turn by turn.

use vstd::prelude::*;
use crate::text::{chars_of, string_of, owned, push_all, push_decimal, decimal_seq, trim_seq, trim_chars, opt_view, str_eq};
use crate::models::TimelineEventType;

verus! {

/// A tool call stored with an assistant message: its id, the tool's name,
/// and its arguments as text.
#[derive(Debug, Clone)]
pub struct LegacyCall {
    pub id: String,
    pub name: String,
    pub arguments_chunk: String,
}

/// A stored message, with what its JSON columns hold.
#[derive(Debug, Clone)]
pub struct LegacyMessage {
    pub id: String,
    pub role: String,
    pub content: String,
    pub created_at: String,
    pub conversation_id: String,
    /// The tool calls of an assistant message, when its `tool_calls`
    /// column holds a list of them.
    pub calls: Option<Vec<LegacyCall>>,
    pub reasoning: Option<String>,
    /// For a tool message: the `tool_call_id` of its metadata.
    pub result_tool_call_id: Option<String>,
    /// For a tool message: the `tool_name` of its metadata.
    pub result_tool_name: Option<String>,
    /// For a tool message: the `error` of its content, when that is a JSON
    /// object with a string `error`.
    pub result_error: Option<String>,
}

/// What a rebuilt event carries.
#[derive(Debug, Clone)]
pub enum LegacyPayload {
    UserMessage { content: String },
    Reasoning { text: String },
    ToolCall { index: usize, name: String, arguments_chunk: String },
    Text { text: String },
    ToolResult { name: String, result: String, error: Option<String> },
}

/// A rebuilt timeline event.
#[derive(Debug, Clone)]
pub struct LegacyEvent {
    pub id: String,
    pub conversation_id: String,
    pub turn_id: String,
    pub seq: i64,
    pub event_type: TimelineEventType,
    pub tool_call_id: Option<String>,
    pub payload: LegacyPayload,
    pub created_at: String,
}

/// The content of a payload.
pub enum PayloadView {
    UserMessage(Seq<char>),
    Reasoning(Seq<char>),
    ToolCall(int, Seq<char>, Seq<char>),
    Text(Seq<char>),
    ToolResult(Seq<char>, Seq<char>, Option<Seq<char>>),
}

/// The content of an event.
pub struct EventView {
    pub id: Seq<char>,
    pub conversation_id: Seq<char>,
    pub turn_id: Seq<char>,
    pub seq: int,
    pub event_type: TimelineEventType,
    pub tool_call_id: Option<Seq<char>>,
    pub payload: PayloadView,
    pub created_at: Seq<char>,
}

pub open spec fn payload_view(p: LegacyPayload) -> PayloadView {
    match p {
        LegacyPayload::UserMessage { content } => PayloadView::UserMessage(content@),
        LegacyPayload::Reasoning { text } => PayloadView::Reasoning(text@),
        LegacyPayload::ToolCall { index, name, arguments_chunk } => PayloadView::ToolCall(index as int, name@, arguments_chunk@),
        LegacyPayload::Text { text } => PayloadView::Text(text@),
        LegacyPayload::ToolResult { name, result, error } => PayloadView::ToolResult(name@, result@, opt_view(error)),
    }
}

pub open spec fn event_view(e: LegacyEvent) -> EventView {
    EventView {
        id: e.id@,
        conversation_id: e.conversation_id@,
        turn_id: e.turn_id@,
        seq: e.seq as int,
        event_type: e.event_type,
        tool_call_id: opt_view(e.tool_call_id),
        payload: payload_view(e.payload),
        created_at: e.created_at@,
    }
}

pub open spec fn events_view(es: Seq<LegacyEvent>) -> Seq<EventView> {
    es.map_values(|e: LegacyEvent| event_view(e))
}

/// The id of the `n`th turn.
pub open spec fn turn_label(n: int) -> Seq<char> {
    "legacy-turn-"@ + decimal_seq(n as nat)
}

/// An event made from a message: its id names the message and the
/// event's number; it keeps the message's conversation and time.
pub open spec fn made_event(
    m: LegacyMessage,
    seq: int,
    turn_id: Seq<char>,
    t: TimelineEventType,
    call_id: Option<Seq<char>>,
    payload: PayloadView,
) -> EventView {
    EventView {
        id: "legacy-"@ + m.id@ + "-"@ + decimal_seq(seq as nat),
        conversation_id: m.conversation_id@,
        turn_id,
        seq,
        event_type: t,
        tool_call_id: call_id,
        payload,
        created_at: m.created_at@,
    }
}

/// Where the rebuilding stands: the last event number, the turn number
/// and the turn's id.
pub type LegacyState = (int, int, Seq<char>);

/// An assistant or tool message before any user message opens the first
/// turn.
pub open spec fn opened_turn(turn: int, turn_id: Seq<char>) -> (int, Seq<char>) {
    if turn == 0 {
        (1, "legacy-turn-1"@)
    } else {
        (turn, turn_id)
    }
}

/// The events of an assistant message's tool calls, numbered after `base`.
pub open spec fn call_events(m: LegacyMessage, calls: Seq<LegacyCall>, base: int, turn_id: Seq<char>) -> Seq<EventView> {
    Seq::new(calls.len(), |k: int| made_event(
        m,
        base + k + 1,
        turn_id,
        TimelineEventType::AssistantToolCall,
        Some(calls[k].id@),
        PayloadView::ToolCall(k, calls[k].name@, calls[k].arguments_chunk@),
    ))
}

pub open spec fn or_empty(o: Option<String>) -> Seq<char> {
    match o {
        Some(s) => s@,
        None => Seq::empty(),
    }
}

pub open spec fn message_calls(m: LegacyMessage) -> Seq<LegacyCall> {
    match m.calls {
        Some(c) => c@,
        None => Seq::empty(),
    }
}

/// The events of one message and the state after it:
/// - a user message opens the next turn and is its user event;
/// - an assistant message gives its reasoning (trimmed, unless blank),
///   each tool call, then its text (unless blank);
/// - a tool message gives its result, under the metadata's call id and
///   tool name (else `tool`), with the error its content reports;
/// - other messages give nothing.
pub open spec fn message_step(state: LegacyState, m: LegacyMessage) -> (LegacyState, Seq<EventView>) {
    let (seq, turn, tid) = state;
    if m.role@ == "user"@ {
        let t = turn + 1;
        let id = turn_label(t);
        ((seq + 1, t, id), seq![made_event(m, seq + 1, id, TimelineEventType::UserMessage, None, PayloadView::UserMessage(m.content@))])
    } else if m.role@ == "assistant"@ {
        let (t, id) = opened_turn(turn, tid);
        let r = trim_seq(or_empty(m.reasoning));
        let s1 = if r.len() > 0 { seq + 1 } else { seq };
        let e1 = if r.len() > 0 {
            seq![made_event(m, seq + 1, id, TimelineEventType::AssistantReasoning, None, PayloadView::Reasoning(r))]
        } else {
            Seq::empty()
        };
        let calls = message_calls(m);
        let s2 = s1 + calls.len();
        let e2 = call_events(m, calls, s1, id);
        let s3 = if trim_seq(m.content@).len() > 0 { s2 + 1 } else { s2 };
        let e3 = if trim_seq(m.content@).len() > 0 {
            seq![made_event(m, s2 + 1, id, TimelineEventType::AssistantText, None, PayloadView::Text(m.content@))]
        } else {
            Seq::empty()
        };
        ((s3, t, id), e1 + e2 + e3)
    } else if m.role@ == "tool"@ {
        let (t, id) = opened_turn(turn, tid);
        let name = match m.result_tool_name {
            Some(n) => n@,
            None => "tool"@,
        };
        (
            (seq + 1, t, id),
            seq![made_event(
                m,
                seq + 1,
                id,
                TimelineEventType::AssistantToolResult,
                opt_view(m.result_tool_call_id),
                PayloadView::ToolResult(name, m.content@, opt_view(m.result_error)),
            )],
        )
    } else {
        (state, Seq::empty())
    }
}

/// The timeline rebuilt from messages in order, and the state after them.
pub open spec fn legacy_run(ms: Seq<LegacyMessage>) -> (LegacyState, Seq<EventView>)
    decreases ms.len(),
{
    if ms.len() == 0 {
        ((0, 0, "legacy-turn-0"@), Seq::empty())
    } else {
        let (st, evs) = legacy_run(ms.drop_last());
        let (st2, more) = message_step(st, ms.last());
        (st2, evs + more)
    }
}

/// An upper bound of how many events messages give: two, plus their tool
/// calls, each.
pub open spec fn event_budget(ms: Seq<LegacyMessage>) -> int
    decreases ms.len(),
{
    if ms.len() == 0 {
        0
    } else {
        event_budget(ms.drop_last()) + 2 + message_calls(ms.last()).len()
    }
}

proof fn lemma_budget_prefix(ms: Seq<LegacyMessage>, i: int)
    requires
        0 <= i <= ms.len(),
    ensures
        event_budget(ms.take(i)) <= event_budget(ms),
    decreases ms.len() - i,
{
    if i < ms.len() {
        lemma_budget_prefix(ms, i + 1);
        assert(ms.take(i + 1).drop_last() =~= ms.take(i));
    } else {
        assert(ms.take(i) =~= ms);
    }
}

proof fn lemma_run_bounds(ms: Seq<LegacyMessage>)
    ensures
        0 <= legacy_run(ms).0.0 <= event_budget(ms),
        0 <= legacy_run(ms).0.1 <= ms.len(),
        event_budget(ms) >= 2 * ms.len(),
    decreases ms.len(),
{
    if ms.len() > 0 {
        lemma_run_bounds(ms.drop_last());
    }
}

fn label(prefix: &str, n: u64) -> (r: String)
    ensures
        r@ == prefix@ + decimal_seq(n as nat),
{
    let mut out = chars_of(prefix);
    push_decimal(&mut out, n);
    string_of(out.as_slice())
}

fn make_event(
    m: &LegacyMessage,
    seq: i64,
    turn_id: &String,
    t: TimelineEventType,
    call_id: Option<String>,
    payload: LegacyPayload,
) -> (r: LegacyEvent)
    requires
        seq >= 0,
    ensures
        event_view(r) == made_event(*m, seq as int, turn_id@, t, opt_view(call_id), payload_view(payload)),
{
    let mut id = chars_of("legacy-");
    let mc = chars_of(m.id.as_str());
    push_all(&mut id, mc.as_slice());
    let dash = chars_of("-");
    push_all(&mut id, dash.as_slice());
    push_decimal(&mut id, seq as u64);
    LegacyEvent {
        id: string_of(id.as_slice()),
        conversation_id: m.conversation_id.clone(),
        turn_id: turn_id.clone(),
        seq,
        event_type: t,
        tool_call_id: call_id,
        payload,
        created_at: m.created_at.clone(),
    }
}

/// The timeline of a conversation without recorded events, rebuilt from
/// its messages (see `legacy_run`).
pub fn legacy_timeline(messages: &Vec<LegacyMessage>) -> (r: Vec<LegacyEvent>)
    requires
        event_budget(messages@) <= i64::MAX,
    ensures
        events_view(r@) == legacy_run(messages@).1,
{
    let mut events: Vec<LegacyEvent> = Vec::new();
    let mut seq: i64 = 0;
    let mut turn: i64 = 0;
    let mut turn_id = owned("legacy-turn-0");
    let mut i: usize = 0;
    proof {
        assert(messages@.take(0) =~= Seq::<LegacyMessage>::empty());
        assert(events_view(events@) =~= Seq::<EventView>::empty());
    }
    while i < messages.len()
        invariant
            i <= messages.len(),
            event_budget(messages@) <= i64::MAX,
            legacy_run(messages@.take(i as int)).0 == (seq as int, turn as int, turn_id@),
            events_view(events@) == legacy_run(messages@.take(i as int)).1,
        decreases messages.len() - i,
    {
        let ghost before = events_view(events@);
        let ghost st = (seq as int, turn as int, turn_id@);
        proof {
            assert(messages@.take(i + 1).drop_last() =~= messages@.take(i as int));
            assert(messages@.take(i + 1).last() == messages@[i as int]);
            lemma_run_bounds(messages@.take(i as int));
            lemma_budget_prefix(messages@, i + 1);
            lemma_budget_prefix(messages@, i as int);
        }
        let m = &messages[i];
        let ghost step = message_step(st, *m);
        if str_eq(m.role.as_str(), "user") {
            turn = turn + 1;
            turn_id = label("legacy-turn-", turn as u64);
            seq = seq + 1;
            let e = make_event(m, seq, &turn_id, TimelineEventType::UserMessage, None, LegacyPayload::UserMessage { content: m.content.clone() });
            events.push(e);
            assert(events_view(events@) =~= before + step.1);
        } else if str_eq(m.role.as_str(), "assistant") {
            if turn == 0 {
                turn = 1;
                turn_id = owned("legacy-turn-1");
            }
            let reasoning = match &m.reasoning {
                Some(r) => crate::text::trim(r.as_str()),
                None => {
                    assert(trim_seq(Seq::<char>::empty()) =~= Seq::<char>::empty());
                    String::new()
                },
            };
            assert(reasoning@ == trim_seq(or_empty(m.reasoning)));
            if !reasoning.as_str().is_empty() {
                seq = seq + 1;
                let e = make_event(m, seq, &turn_id, TimelineEventType::AssistantReasoning, None, LegacyPayload::Reasoning { text: reasoning });
                events.push(e);
            }
            let ghost after_reasoning = events_view(events@);
            let ghost s1 = seq as int;
            let ghost calls = message_calls(*m);
            assert(after_reasoning =~= before + (if trim_seq(or_empty(m.reasoning)).len() > 0 {
                seq![made_event(*m, st.0 + 1, turn_id@, TimelineEventType::AssistantReasoning, None, PayloadView::Reasoning(trim_seq(or_empty(m.reasoning))))]
            } else {
                Seq::<EventView>::empty()
            }));
            if let Some(cs) = &m.calls {
                let mut k: usize = 0;
                while k < cs.len()
                    invariant
                        k <= cs.len(),
                        cs@ == calls,
                        seq as int == s1 + k,
                        s1 + cs.len() <= i64::MAX,
                        s1 >= 0,
                        events_view(events@) =~= after_reasoning + call_events(*m, calls, s1, turn_id@).take(k as int),
                    decreases cs.len() - k,
                {
                    seq = seq + 1;
                    let c = &cs[k];
                    let e = make_event(
                        m,
                        seq,
                        &turn_id,
                        TimelineEventType::AssistantToolCall,
                        Some(c.id.clone()),
                        LegacyPayload::ToolCall { index: k, name: c.name.clone(), arguments_chunk: c.arguments_chunk.clone() },
                    );
                    let ghost prev = events_view(events@);
                    events.push(e);
                    proof {
                        assert(events_view(events@) =~= prev.push(event_view(e)));
                        assert(call_events(*m, calls, s1, turn_id@).take(k + 1)
                            =~= call_events(*m, calls, s1, turn_id@).take(k as int).push(call_events(*m, calls, s1, turn_id@)[k as int]));
                    }
                    k += 1;
                }
                assert(call_events(*m, calls, s1, turn_id@).take(cs.len() as int) =~= call_events(*m, calls, s1, turn_id@));
            } else {
                assert(call_events(*m, calls, s1, turn_id@) =~= Seq::<EventView>::empty());
            }
            let ghost after_calls = events_view(events@);
            let ghost s2 = seq as int;
            assert(s2 == s1 + calls.len());
            assert(after_calls =~= after_reasoning + call_events(*m, calls, s1, turn_id@));
            let content_trimmed = trim_chars(chars_of(m.content.as_str()).as_slice());
            if content_trimmed.len() > 0 {
                seq = seq + 1;
                let e = make_event(m, seq, &turn_id, TimelineEventType::AssistantText, None, LegacyPayload::Text { text: m.content.clone() });
                events.push(e);
                assert(events_view(events@) =~= after_calls.push(event_view(e)));
            }
            proof {
                let e1 = if trim_seq(or_empty(m.reasoning)).len() > 0 {
                    seq![made_event(*m, st.0 + 1, turn_id@, TimelineEventType::AssistantReasoning, None, PayloadView::Reasoning(trim_seq(or_empty(m.reasoning))))]
                } else {
                    Seq::<EventView>::empty()
                };
                let e2 = call_events(*m, calls, s1, turn_id@);
                let e3 = if trim_seq(m.content@).len() > 0 {
                    seq![made_event(*m, s2 + 1, turn_id@, TimelineEventType::AssistantText, None, PayloadView::Text(m.content@))]
                } else {
                    Seq::<EventView>::empty()
                };
                assert(step.1 == e1 + e2 + e3);
                assert(events_view(events@) =~= before + e1 + e2 + e3);
            }
            assert(events_view(events@) =~= before + step.1);
        } else if str_eq(m.role.as_str(), "tool") {
            if turn == 0 {
                turn = 1;
                turn_id = owned("legacy-turn-1");
            }
            let name = match &m.result_tool_name {
                Some(n) => n.clone(),
                None => owned("tool"),
            };
            seq = seq + 1;
            let e = make_event(
                m,
                seq,
                &turn_id,
                TimelineEventType::AssistantToolResult,
                m.result_tool_call_id.clone(),
                LegacyPayload::ToolResult { name, result: m.content.clone(), error: m.result_error.clone() },
            );
            events.push(e);
            assert(events_view(events@) =~= before + step.1);
        } else {
            assert(events_view(events@) =~= before + step.1);
        }
        i += 1;
    }
    assert(messages@.take(messages.len() as int) =~= messages@);
    events
}

} // verus!
