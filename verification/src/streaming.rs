//! Streaming conversion: Chat API stream chunks → Responses API stream events.
//!
//! Text, reasoning and tool call deltas are accumulated across chunks; each
//! output item gets the next output index when it first appears, and the
//! `[DONE]` marker closes every open item and completes the response.
use vstd::prelude::*;
use crate::ids::{is_id, new_id};
use crate::json::{copy_json, object, object_of, owned, str_eq};
use crate::jsonio::{json_of_text, parse_json_text};
use crate::value::{fields_view, group_json_view, json_view, seq_view, Json, JsonV, Number, NumberV};
use crate::models::opt_json_view;

verus! {

broadcast use group_json_view;

// ─── State and events ───────────────────────────────────────────────────

/// What has been accumulated of one streamed tool call.
#[derive(Debug, Clone)]
pub struct ToolCallAccumulator {
    pub id: String,
    pub name: String,
    pub arguments: String,
    pub index: u32,
    /// Whether `output_item.added` was emitted for it.
    pub item_added: bool,
    /// The output item's identifier.
    pub fc_id: String,
    /// The output index given when the item was added.
    pub output_index: usize,
}

pub ghost struct AccV {
    pub id: Seq<char>,
    pub name: Seq<char>,
    pub arguments: Seq<char>,
    pub index: u32,
    pub item_added: bool,
    pub fc_id: Seq<char>,
    pub output_index: usize,
}

impl View for ToolCallAccumulator {
    type V = AccV;

    open spec fn view(&self) -> AccV {
        AccV {
            id: self.id@,
            name: self.name@,
            arguments: self.arguments@,
            index: self.index,
            item_added: self.item_added,
            fc_id: self.fc_id@,
            output_index: self.output_index,
        }
    }
}

pub open spec fn empty_acc() -> AccV {
    AccV {
        id: Seq::empty(),
        name: Seq::empty(),
        arguments: Seq::empty(),
        index: 0,
        item_added: false,
        fc_id: Seq::empty(),
        output_index: 0,
    }
}

impl ToolCallAccumulator {
    pub fn new() -> (r: Self)
        ensures
            r@ == empty_acc(),
    {
        ToolCallAccumulator {
            id: String::new(),
            name: String::new(),
            arguments: String::new(),
            index: 0,
            item_added: false,
            fc_id: String::new(),
            output_index: 0,
        }
    }
}

/// The state carried across the chunks of one streamed response.
#[derive(Debug)]
pub struct StreamState {
    pub response_id: String,
    pub msg_id: String,
    pub model: String,
    pub accumulated_text: String,
    /// Reasoning content accumulated from `delta.reasoning_content`.
    pub reasoning_content: String,
    /// Tool calls, by their index.
    pub tool_calls: Vec<ToolCallAccumulator>,
    pub has_started: bool,
    pub created: u64,
    /// Whether `output_item.added` was emitted for the message.
    pub message_item_added: bool,
    /// The output index of the message item.
    pub msg_output_index: usize,
    /// Whether `output_item.added` was emitted for the reasoning.
    pub reasoning_item_added: bool,
    pub reasoning_id: String,
    /// The output index the next new item takes.
    pub next_output_index: usize,
    /// Usage from the final chunk, when the provider sends it.
    pub usage: Option<Json>,
}

pub ghost struct StreamV {
    pub response_id: Seq<char>,
    pub msg_id: Seq<char>,
    pub model: Seq<char>,
    pub text: Seq<char>,
    pub reasoning: Seq<char>,
    pub calls: Seq<AccV>,
    pub has_started: bool,
    pub created: u64,
    pub message_added: bool,
    pub msg_output_index: usize,
    pub reasoning_added: bool,
    pub reasoning_id: Seq<char>,
    pub next_output_index: usize,
    pub usage: Option<JsonV>,
}

impl View for StreamState {
    type V = StreamV;

    open spec fn view(&self) -> StreamV {
        StreamV {
            response_id: self.response_id@,
            msg_id: self.msg_id@,
            model: self.model@,
            text: self.accumulated_text@,
            reasoning: self.reasoning_content@,
            calls: self.tool_calls@.map_values(|a: ToolCallAccumulator| a@),
            has_started: self.has_started,
            created: self.created,
            message_added: self.message_item_added,
            msg_output_index: self.msg_output_index,
            reasoning_added: self.reasoning_item_added,
            reasoning_id: self.reasoning_id@,
            next_output_index: self.next_output_index,
            usage: opt_json_view(self.usage),
        }
    }
}

pub open spec fn count_added(calls: Seq<AccV>) -> nat
    decreases calls.len(),
{
    if calls.len() == 0 {
        0
    } else {
        count_added(calls.drop_last()) + if calls.last().item_added {
            1nat
        } else {
            0nat
        }
    }
}

/// Every item added so far took one output index, and the calls are few
/// enough that every output index they can take fits in a `usize`.
pub open spec fn stream_wf(s: StreamV) -> bool {
    &&& s.next_output_index == (if s.reasoning_added { 1nat } else { 0nat }) + (if s.message_added {
        1nat
    } else {
        0nat
    }) + count_added(s.calls)
    &&& s.calls.len() <= 0x1_0000_0000
    &&& s.calls.len() + 3 <= usize::MAX
}

impl StreamState {
    /// The state a fresh stream starts in; the reasoning item gets a fresh identifier.
    pub fn new(response_id: String, msg_id: String, model: String) -> (r: Self)
        ensures
            r@.response_id == response_id@,
            r@.msg_id == msg_id@,
            r@.model == model@,
            r@.text.len() == 0,
            r@.reasoning.len() == 0,
            r@.calls.len() == 0,
            !r@.has_started,
            r@.created == 0,
            !r@.message_added,
            r@.msg_output_index == 0,
            !r@.reasoning_added,
            is_id(r@.reasoning_id, "rs_"@),
            r@.next_output_index == 0,
            r@.usage.is_none(),
            stream_wf(r@),
    {
        let r = StreamState {
            response_id,
            msg_id,
            model,
            accumulated_text: String::new(),
            reasoning_content: String::new(),
            tool_calls: Vec::new(),
            has_started: false,
            created: 0,
            message_item_added: false,
            msg_output_index: 0,
            reasoning_item_added: false,
            reasoning_id: new_id("rs_"),
            next_output_index: 0,
            usage: None,
        };
        assert(r@.calls =~= Seq::<AccV>::empty());
        r
    }

    pub open spec fn wf(&self) -> bool {
        stream_wf(self@)
    }
}

#[derive(Debug, PartialEq, Eq, Structural, Clone, Copy)]
pub enum EventKind {
    Created,
    InProgress,
    OutputItemAdded,
    ContentPartAdded,
    OutputTextDelta,
    ReasoningTextDelta,
    OutputTextDone,
    ReasoningTextDone,
    FunctionCallArgumentsDelta,
    OutputItemDone,
    ContentPartDone,
    FunctionCallArgumentsDone,
    Completed,
    Failed,
}

/// An event of the Responses API stream, with its JSON body.
#[derive(Debug)]
pub enum StreamEvent {
    Created(Json),
    InProgress(Json),
    OutputItemAdded(Json),
    ContentPartAdded(Json),
    OutputTextDelta(Json),
    ReasoningTextDelta(Json),
    OutputTextDone(Json),
    ReasoningTextDone(Json),
    FunctionCallArgumentsDelta(Json),
    OutputItemDone(Json),
    ContentPartDone(Json),
    FunctionCallArgumentsDone(Json),
    Completed(Json),
    Failed(Json),
}

pub ghost struct EventV {
    pub kind: EventKind,
    pub body: JsonV,
}

impl View for StreamEvent {
    type V = EventV;

    open spec fn view(&self) -> EventV {
        match self {
            StreamEvent::Created(v) => EventV { kind: EventKind::Created, body: v@ },
            StreamEvent::InProgress(v) => EventV { kind: EventKind::InProgress, body: v@ },
            StreamEvent::OutputItemAdded(v) => EventV { kind: EventKind::OutputItemAdded, body: v@ },
            StreamEvent::ContentPartAdded(v) => EventV { kind: EventKind::ContentPartAdded, body: v@ },
            StreamEvent::OutputTextDelta(v) => EventV { kind: EventKind::OutputTextDelta, body: v@ },
            StreamEvent::ReasoningTextDelta(v) => EventV {
                kind: EventKind::ReasoningTextDelta,
                body: v@,
            },
            StreamEvent::OutputTextDone(v) => EventV { kind: EventKind::OutputTextDone, body: v@ },
            StreamEvent::ReasoningTextDone(v) => EventV {
                kind: EventKind::ReasoningTextDone,
                body: v@,
            },
            StreamEvent::FunctionCallArgumentsDelta(v) => EventV {
                kind: EventKind::FunctionCallArgumentsDelta,
                body: v@,
            },
            StreamEvent::OutputItemDone(v) => EventV { kind: EventKind::OutputItemDone, body: v@ },
            StreamEvent::ContentPartDone(v) => EventV { kind: EventKind::ContentPartDone, body: v@ },
            StreamEvent::FunctionCallArgumentsDone(v) => EventV {
                kind: EventKind::FunctionCallArgumentsDone,
                body: v@,
            },
            StreamEvent::Completed(v) => EventV { kind: EventKind::Completed, body: v@ },
            StreamEvent::Failed(v) => EventV { kind: EventKind::Failed, body: v@ },
        }
    }
}

pub open spec fn events_view(s: Seq<StreamEvent>) -> Seq<EventV> {
    s.map_values(|e: StreamEvent| e@)
}

pub open spec fn event_type_name(k: EventKind) -> Seq<char> {
    match k {
        EventKind::Created => "response.created"@,
        EventKind::InProgress => "response.in_progress"@,
        EventKind::OutputItemAdded => "response.output_item.added"@,
        EventKind::ContentPartAdded => "response.content_part.added"@,
        EventKind::OutputTextDelta => "response.output_text.delta"@,
        EventKind::ReasoningTextDelta => "response.reasoning_text.delta"@,
        EventKind::OutputTextDone => "response.output_text.done"@,
        EventKind::ReasoningTextDone => "response.reasoning_text.done"@,
        EventKind::FunctionCallArgumentsDelta => "response.function_call_arguments.delta"@,
        EventKind::OutputItemDone => "response.output_item.done"@,
        EventKind::ContentPartDone => "response.content_part.done"@,
        EventKind::FunctionCallArgumentsDone => "response.function_call_arguments.done"@,
        EventKind::Completed => "response.completed"@,
        EventKind::Failed => "response.failed"@,
    }
}

impl StreamEvent {
    /// The event's JSON body.
    pub fn to_sse_json(&self) -> (r: Json)
        ensures
            r@ == self@.body,
    {
        match self {
            StreamEvent::Created(v) => copy_json(v),
            StreamEvent::InProgress(v) => copy_json(v),
            StreamEvent::OutputItemAdded(v) => copy_json(v),
            StreamEvent::ContentPartAdded(v) => copy_json(v),
            StreamEvent::OutputTextDelta(v) => copy_json(v),
            StreamEvent::ReasoningTextDelta(v) => copy_json(v),
            StreamEvent::OutputTextDone(v) => copy_json(v),
            StreamEvent::ReasoningTextDone(v) => copy_json(v),
            StreamEvent::FunctionCallArgumentsDelta(v) => copy_json(v),
            StreamEvent::OutputItemDone(v) => copy_json(v),
            StreamEvent::ContentPartDone(v) => copy_json(v),
            StreamEvent::FunctionCallArgumentsDone(v) => copy_json(v),
            StreamEvent::Completed(v) => copy_json(v),
            StreamEvent::Failed(v) => copy_json(v),
        }
    }

    pub fn kind(&self) -> (r: EventKind)
        ensures
            r == self@.kind,
    {
        match self {
            StreamEvent::Created(_) => EventKind::Created,
            StreamEvent::InProgress(_) => EventKind::InProgress,
            StreamEvent::OutputItemAdded(_) => EventKind::OutputItemAdded,
            StreamEvent::ContentPartAdded(_) => EventKind::ContentPartAdded,
            StreamEvent::OutputTextDelta(_) => EventKind::OutputTextDelta,
            StreamEvent::ReasoningTextDelta(_) => EventKind::ReasoningTextDelta,
            StreamEvent::OutputTextDone(_) => EventKind::OutputTextDone,
            StreamEvent::ReasoningTextDone(_) => EventKind::ReasoningTextDone,
            StreamEvent::FunctionCallArgumentsDelta(_) => EventKind::FunctionCallArgumentsDelta,
            StreamEvent::OutputItemDone(_) => EventKind::OutputItemDone,
            StreamEvent::ContentPartDone(_) => EventKind::ContentPartDone,
            StreamEvent::FunctionCallArgumentsDone(_) => EventKind::FunctionCallArgumentsDone,
            StreamEvent::Completed(_) => EventKind::Completed,
            StreamEvent::Failed(_) => EventKind::Failed,
        }
    }

    /// The event's `type` name.
    pub fn event_type(&self) -> (r: &'static str)
        ensures
            r@ == event_type_name(self@.kind),
    {
        match self {
            StreamEvent::Created(_) => "response.created",
            StreamEvent::InProgress(_) => "response.in_progress",
            StreamEvent::OutputItemAdded(_) => "response.output_item.added",
            StreamEvent::ContentPartAdded(_) => "response.content_part.added",
            StreamEvent::OutputTextDelta(_) => "response.output_text.delta",
            StreamEvent::ReasoningTextDelta(_) => "response.reasoning_text.delta",
            StreamEvent::OutputTextDone(_) => "response.output_text.done",
            StreamEvent::ReasoningTextDone(_) => "response.reasoning_text.done",
            StreamEvent::FunctionCallArgumentsDelta(_) => "response.function_call_arguments.delta",
            StreamEvent::OutputItemDone(_) => "response.output_item.done",
            StreamEvent::ContentPartDone(_) => "response.content_part.done",
            StreamEvent::FunctionCallArgumentsDone(_) => "response.function_call_arguments.done",
            StreamEvent::Completed(_) => "response.completed",
            StreamEvent::Failed(_) => "response.failed",
        }
    }
}

// ─── Event bodies ───────────────────────────────────────────────────────

pub open spec fn js(s: Seq<char>) -> JsonV {
    JsonV::Str(s)
}

pub open spec fn jn(n: int) -> JsonV {
    JsonV::Number(NumberV::PosInt(n as u64))
}

pub open spec fn jempty() -> JsonV {
    JsonV::Array(Seq::empty())
}

pub open spec fn ev(kind: EventKind, body: JsonV) -> EventV {
    EventV { kind, body }
}

/// The body of an `output_item.added` event for an item at `idx`.
pub open spec fn added_body(idx: int, item: JsonV) -> JsonV {
    object_of(
        seq![
            ("type"@, js("response.output_item.added"@)),
            ("output_index"@, jn(idx)),
            ("item"@, item),
        ],
    )
}

pub open spec fn reasoning_added_body(idx: int, rid: Seq<char>) -> JsonV {
    added_body(
        idx,
        object_of(
            seq![
                ("type"@, js("reasoning"@)),
                ("id"@, js(rid)),
                ("status"@, js("in_progress"@)),
                ("summary"@, jempty()),
                ("content"@, jempty()),
            ],
        ),
    )
}

pub open spec fn part_added_body(idx: int, item_id: Seq<char>, part: JsonV) -> JsonV {
    object_of(
        seq![
            ("type"@, js("response.content_part.added"@)),
            ("item_id"@, js(item_id)),
            ("output_index"@, jn(idx)),
            ("content_index"@, jn(0)),
            ("part"@, part),
        ],
    )
}

pub open spec fn empty_reasoning_part() -> JsonV {
    object_of(seq![("type"@, js("reasoning_text"@)), ("text"@, js(Seq::empty()))])
}

pub open spec fn text_part(text: Seq<char>) -> JsonV {
    object_of(
        seq![("type"@, js("output_text"@)), ("text"@, js(text)), ("annotations"@, jempty())],
    )
}

pub open spec fn delta_body(ty: Seq<char>, item_id: Seq<char>, idx: int, delta: Seq<char>) -> JsonV {
    object_of(
        seq![
            ("type"@, js(ty)),
            ("item_id"@, js(item_id)),
            ("output_index"@, jn(idx)),
            ("content_index"@, jn(0)),
            ("delta"@, js(delta)),
        ],
    )
}

pub open spec fn message_added_body(idx: int, mid: Seq<char>) -> JsonV {
    added_body(
        idx,
        object_of(
            seq![
                ("type"@, js("message"@)),
                ("id"@, js(mid)),
                ("role"@, js("assistant"@)),
                ("status"@, js("in_progress"@)),
                ("content"@, jempty()),
            ],
        ),
    )
}

pub open spec fn call_added_body(idx: int, fc_id: Seq<char>, call_id: Seq<char>) -> JsonV {
    added_body(
        idx,
        object_of(
            seq![
                ("type"@, js("function_call"@)),
                ("id"@, js(fc_id)),
                ("call_id"@, js(call_id)),
                ("name"@, js(Seq::empty())),
                ("arguments"@, js(Seq::empty())),
                ("status"@, js("in_progress"@)),
            ],
        ),
    )
}

pub open spec fn args_delta_body(fc_id: Seq<char>, idx: int, delta: Seq<char>) -> JsonV {
    object_of(
        seq![
            ("type"@, js("response.function_call_arguments.delta"@)),
            ("item_id"@, js(fc_id)),
            ("output_index"@, jn(idx)),
            ("delta"@, js(delta)),
        ],
    )
}

pub open spec fn started_response(s: StreamV) -> JsonV {
    object_of(
        seq![
            ("id"@, js(s.response_id)),
            ("object"@, js("response"@)),
            ("created_at"@, JsonV::Number(NumberV::PosInt(s.created))),
            ("model"@, js(s.model)),
            ("status"@, js("in_progress"@)),
            ("output"@, jempty()),
        ],
    )
}

pub open spec fn start_body(ty: Seq<char>, s: StreamV) -> JsonV {
    object_of(seq![("type"@, js(ty)), ("response"@, started_response(s))])
}

// ─── One chunk ──────────────────────────────────────────────────────────

/// The state, the events so far, whether any delta carried content, and
/// how many fresh call identifiers were taken.
pub ghost struct ChunkAcc {
    pub s: StreamV,
    pub events: Seq<EventV>,
    pub has_content: bool,
    pub used: nat,
}

pub open spec fn nonempty_str(v: JsonV) -> Option<Seq<char>> {
    match v.as_str() {
        Some(t) => if t.len() > 0 {
            Some(t)
        } else {
            None
        },
        None => None,
    }
}

pub open spec fn reasoning_delta(a: ChunkAcc, delta: JsonV) -> ChunkAcc {
    match nonempty_str(delta.at("reasoning_content"@)) {
        Some(r) => {
            let rid = a.s.reasoning_id;
            let b = if !a.s.reasoning_added {
                let idx = a.s.next_output_index as int;
                ChunkAcc {
                    s: StreamV { next_output_index: (idx + 1) as usize, reasoning_added: true, ..a.s },
                    events: a.events + seq![
                        ev(EventKind::OutputItemAdded, reasoning_added_body(idx, rid)),
                        ev(EventKind::ContentPartAdded, part_added_body(idx, rid, empty_reasoning_part())),
                    ],
                    ..a
                }
            } else {
                a
            };
            ChunkAcc {
                s: StreamV { reasoning: b.s.reasoning + r, ..b.s },
                events: b.events.push(
                    ev(
                        EventKind::ReasoningTextDelta,
                        delta_body("response.reasoning_text.delta"@, rid, 0, r),
                    ),
                ),
                has_content: true,
                ..b
            }
        },
        None => a,
    }
}

pub open spec fn text_delta(a: ChunkAcc, delta: JsonV) -> ChunkAcc {
    match nonempty_str(delta.at("content"@)) {
        Some(c) => {
            let mid = a.s.msg_id;
            let b = if !a.s.message_added {
                let idx = a.s.next_output_index as int;
                ChunkAcc {
                    s: StreamV {
                        next_output_index: (idx + 1) as usize,
                        msg_output_index: idx as usize,
                        message_added: true,
                        ..a.s
                    },
                    events: a.events + seq![
                        ev(EventKind::OutputItemAdded, message_added_body(idx, mid)),
                        ev(EventKind::ContentPartAdded, part_added_body(idx, mid, text_part(Seq::empty()))),
                    ],
                    ..a
                }
            } else {
                a
            };
            ChunkAcc {
                s: StreamV { text: b.s.text + c, ..b.s },
                events: b.events.push(
                    ev(
                        EventKind::OutputTextDelta,
                        delta_body("response.output_text.delta"@, mid, b.s.msg_output_index as int, c),
                    ),
                ),
                has_content: true,
                ..b
            }
        },
        None => a,
    }
}

/// The accumulators, padded with empty ones up to length `n`.
pub open spec fn grow(calls: Seq<AccV>, n: int) -> Seq<AccV> {
    if calls.len() >= n {
        calls
    } else {
        calls + Seq::new((n - calls.len()) as nat, |i: int| empty_acc())
    }
}

/// The `index` of a tool call delta, as a `u32`.
pub open spec fn delta_index(tc: JsonV) -> u32 {
    match tc.get("index"@) {
        Some(v) => match v.as_u64() {
            Some(n) => n as u32,
            None => 0,
        },
        None => 0,
    }
}

pub open spec fn call_delta(a: ChunkAcc, tc: JsonV, ids: Seq<Seq<char>>) -> ChunkAcc {
    let index = delta_index(tc);
    let calls = grow(a.s.calls, index as int + 1);
    let acc0 = calls[index as int];
    let acc1 = AccV {
        index,
        id: match tc.at("id"@).as_str() {
            Some(id) => id,
            None => acc0.id,
        },
        ..acc0
    };
    let acc2 = if acc1.fc_id.len() == 0 {
        AccV { fc_id: ids[a.used as int], ..acc1 }
    } else {
        acc1
    };
    let used = if acc1.fc_id.len() == 0 {
        a.used + 1
    } else {
        a.used
    };
    let added = !acc2.item_added && acc2.id.len() > 0;
    let idx = a.s.next_output_index as int;
    let acc3 = if added {
        AccV { output_index: idx as usize, item_added: true, ..acc2 }
    } else {
        acc2
    };
    let next = if added {
        (idx + 1) as usize
    } else {
        a.s.next_output_index
    };
    let events = if added {
        a.events.push(ev(EventKind::OutputItemAdded, call_added_body(idx, acc2.fc_id, acc2.id)))
    } else {
        a.events
    };
    let (acc4, events2) = match tc.get("function"@) {
        Some(func) => {
            let acc_n = match func.at("name"@).as_str() {
                Some(n) => AccV { name: acc3.name + n, ..acc3 },
                None => acc3,
            };
            match func.at("arguments"@).as_str() {
                Some(args) => (
                    AccV { arguments: acc_n.arguments + args, ..acc_n },
                    if acc_n.item_added {
                        events.push(
                            ev(
                                EventKind::FunctionCallArgumentsDelta,
                                args_delta_body(acc_n.fc_id, acc_n.output_index as int, args),
                            ),
                        )
                    } else {
                        events
                    },
                ),
                None => (acc_n, events),
            }
        },
        None => (acc3, events),
    };
    ChunkAcc {
        s: StreamV { calls: calls.update(index as int, acc4), next_output_index: next, ..a.s },
        events: events2,
        has_content: true,
        used,
    }
}

pub open spec fn call_deltas(a: ChunkAcc, tcs: Seq<JsonV>, n: int, ids: Seq<Seq<char>>) -> ChunkAcc
    decreases n,
{
    if n <= 0 {
        a
    } else {
        call_delta(call_deltas(a, tcs, n - 1, ids), tcs[n - 1], ids)
    }
}

pub open spec fn choice_delta(a: ChunkAcc, choice: JsonV, ids: Seq<Seq<char>>) -> ChunkAcc {
    match choice.get("delta"@) {
        Some(delta) => {
            let b = text_delta(reasoning_delta(a, delta), delta);
            match delta.at("tool_calls"@).as_array() {
                Some(tcs) => call_deltas(b, tcs, tcs.len() as int, ids),
                None => b,
            }
        },
        None => a,
    }
}

pub open spec fn choice_deltas(a: ChunkAcc, cs: Seq<JsonV>, n: int, ids: Seq<Seq<char>>) -> ChunkAcc
    decreases n,
{
    if n <= 0 {
        a
    } else {
        choice_delta(choice_deltas(a, cs, n - 1, ids), cs[n - 1], ids)
    }
}

/// How many tool call deltas a choice carries.
pub open spec fn choice_delta_count(c: JsonV) -> nat {
    match c.get("delta"@) {
        Some(d) => match d.at("tool_calls"@).as_array() {
            Some(tcs) => tcs.len(),
            None => 0,
        },
        None => 0,
    }
}

/// How many tool call deltas the chunk's choices carry.
pub open spec fn delta_count(cs: Seq<JsonV>) -> nat
    decreases cs.len(),
{
    if cs.len() == 0 {
        0
    } else {
        delta_count(cs.drop_last()) + choice_delta_count(cs.last())
    }
}

/// Whether the index of each tool call delta a choice carries leaves room,
/// in a `usize`, for a list of calls that long and for the output indices
/// after it (always so where `usize` has 64 bits).
pub open spec fn choice_indices_fit(c: JsonV) -> bool {
    match c.get("delta"@) {
        Some(d) => match d.at("tool_calls"@).as_array() {
            Some(tcs) => forall|j: int| 0 <= j < tcs.len() ==> #[trigger] delta_index(tcs[j]) + 4 <= usize::MAX,
            None => true,
        },
        None => true,
    }
}

/// Whether every choice's tool call indices fit (see [`choice_indices_fit`]).
pub open spec fn indices_fit(cs: Seq<JsonV>) -> bool {
    forall|i: int| 0 <= i < cs.len() ==> #[trigger] choice_indices_fit(cs[i])
}

pub open spec fn chunk_choices(chunk: JsonV) -> Seq<JsonV> {
    match chunk.at("choices"@).as_array() {
        Some(cs) => cs,
        None => Seq::empty(),
    }
}

/// The state after a parsed chunk, and the events it gives; `ids` are the
/// fresh identifiers that new tool calls take, in order.
pub open spec fn chunk_result(s: StreamV, chunk: JsonV, ids: Seq<Seq<char>>) -> (StreamV, Option<Seq<EventV>>) {
    let s1 = match chunk.at("created"@).as_u64() {
        Some(c) => StreamV { created: c, ..s },
        None => s,
    };
    if chunk.at("choices"@).as_array() == Some(Seq::<JsonV>::empty()) {
        (
            match chunk.get("usage"@) {
                Some(u) => StreamV { usage: Some(u), ..s1 },
                None => s1,
            },
            None,
        )
    } else {
        let cs = chunk_choices(chunk);
        let a = choice_deltas(
            ChunkAcc { s: s1, events: Seq::empty(), has_content: false, used: 0 },
            cs,
            cs.len() as int,
            ids,
        );
        let (s2, events) = if a.has_content && !a.s.has_started {
            (
                StreamV { has_started: true, ..a.s },
                seq![
                    ev(EventKind::Created, start_body("response.created"@, a.s)),
                    ev(EventKind::InProgress, start_body("response.in_progress"@, a.s)),
                ] + a.events,
            )
        } else {
            (a.s, a.events)
        };
        (
            s2,
            if events.len() == 0 {
                None
            } else {
                Some(events)
            },
        )
    }
}

// ─── Building event bodies ──────────────────────────────────────────────

fn pair(k: &str, v: Json) -> (r: (String, Json))
    ensures
        r.0@ == k@,
        r.1@ == v@,
{
    (owned(k), v)
}

fn jstr(s: &str) -> (r: Json)
    ensures
        r@ == js(s@),
{
    Json::String(owned(s))
}

fn jnum(n: usize) -> (r: Json)
    ensures
        r@ == jn(n as int),
{
    Json::Number(Number::PosInt(n as u64))
}

fn jarr() -> (r: Json)
    ensures
        r@ == jempty(),
{
    let v: Vec<Json> = Vec::new();
    assert(seq_view(v@) =~= Seq::<JsonV>::empty());
    Json::Array(v)
}

fn reasoning_added_json(idx: usize, rid: &str) -> (r: Json)
    ensures
        r@ == reasoning_added_body(idx as int, rid@),
{
    let item = vec![
        pair("type", jstr("reasoning")),
        pair("id", jstr(rid)),
        pair("status", jstr("in_progress")),
        pair("summary", jarr()),
        pair("content", jarr()),
    ];
    assert(fields_view(item@) =~= seq![
        ("type"@, js("reasoning"@)),
        ("id"@, js(rid@)),
        ("status"@, js("in_progress"@)),
        ("summary"@, jempty()),
        ("content"@, jempty()),
    ]);
    let body = vec![
        pair("type", jstr("response.output_item.added")),
        pair("output_index", jnum(idx)),
        pair("item", object(item)),
    ];
    assert(fields_view(body@) =~= seq![
        ("type"@, js("response.output_item.added"@)),
        ("output_index"@, jn(idx as int)),
        ("item"@, body@[2].1@),
    ]);
    object(body)
}

fn part_added_json(idx: usize, item_id: &str, part: Json) -> (r: Json)
    ensures
        r@ == part_added_body(idx as int, item_id@, part@),
{
    let ghost pv = part@;
    let body = vec![
        pair("type", jstr("response.content_part.added")),
        pair("item_id", jstr(item_id)),
        pair("output_index", jnum(idx)),
        pair("content_index", jnum(0)),
        pair("part", part),
    ];
    assert(fields_view(body@) =~= seq![
        ("type"@, js("response.content_part.added"@)),
        ("item_id"@, js(item_id@)),
        ("output_index"@, jn(idx as int)),
        ("content_index"@, jn(0)),
        ("part"@, pv),
    ]);
    object(body)
}

fn empty_reasoning_part_json() -> (r: Json)
    ensures
        r@ == empty_reasoning_part(),
{
    let body = vec![pair("type", jstr("reasoning_text")), pair("text", jstr(""))];
    assert(fields_view(body@) =~= seq![("type"@, js("reasoning_text"@)), ("text"@, js(""@))]);
    proof {
        reveal_strlit("");
    }
    assert(""@ =~= Seq::<char>::empty());
    object(body)
}

fn text_part_json(text: &str) -> (r: Json)
    ensures
        r@ == text_part(text@),
{
    let body = vec![pair("type", jstr("output_text")), pair("text", jstr(text)), pair("annotations", jarr())];
    assert(fields_view(body@) =~= seq![
        ("type"@, js("output_text"@)),
        ("text"@, js(text@)),
        ("annotations"@, jempty()),
    ]);
    object(body)
}

fn delta_json(ty: &str, item_id: &str, idx: usize, delta: &str) -> (r: Json)
    ensures
        r@ == delta_body(ty@, item_id@, idx as int, delta@),
{
    let body = vec![
        pair("type", jstr(ty)),
        pair("item_id", jstr(item_id)),
        pair("output_index", jnum(idx)),
        pair("content_index", jnum(0)),
        pair("delta", jstr(delta)),
    ];
    assert(fields_view(body@) =~= seq![
        ("type"@, js(ty@)),
        ("item_id"@, js(item_id@)),
        ("output_index"@, jn(idx as int)),
        ("content_index"@, jn(0)),
        ("delta"@, js(delta@)),
    ]);
    object(body)
}

fn message_added_json(idx: usize, mid: &str) -> (r: Json)
    ensures
        r@ == message_added_body(idx as int, mid@),
{
    let item = vec![
        pair("type", jstr("message")),
        pair("id", jstr(mid)),
        pair("role", jstr("assistant")),
        pair("status", jstr("in_progress")),
        pair("content", jarr()),
    ];
    assert(fields_view(item@) =~= seq![
        ("type"@, js("message"@)),
        ("id"@, js(mid@)),
        ("role"@, js("assistant"@)),
        ("status"@, js("in_progress"@)),
        ("content"@, jempty()),
    ]);
    let body = vec![
        pair("type", jstr("response.output_item.added")),
        pair("output_index", jnum(idx)),
        pair("item", object(item)),
    ];
    assert(fields_view(body@) =~= seq![
        ("type"@, js("response.output_item.added"@)),
        ("output_index"@, jn(idx as int)),
        ("item"@, body@[2].1@),
    ]);
    object(body)
}

fn call_added_json(idx: usize, fc_id: &str, call_id: &str) -> (r: Json)
    ensures
        r@ == call_added_body(idx as int, fc_id@, call_id@),
{
    let item = vec![
        pair("type", jstr("function_call")),
        pair("id", jstr(fc_id)),
        pair("call_id", jstr(call_id)),
        pair("name", jstr("")),
        pair("arguments", jstr("")),
        pair("status", jstr("in_progress")),
    ];
    proof {
        reveal_strlit("");
    }
    assert(""@ =~= Seq::<char>::empty());
    assert(fields_view(item@) =~= seq![
        ("type"@, js("function_call"@)),
        ("id"@, js(fc_id@)),
        ("call_id"@, js(call_id@)),
        ("name"@, js(Seq::empty())),
        ("arguments"@, js(Seq::empty())),
        ("status"@, js("in_progress"@)),
    ]);
    let body = vec![
        pair("type", jstr("response.output_item.added")),
        pair("output_index", jnum(idx)),
        pair("item", object(item)),
    ];
    assert(fields_view(body@) =~= seq![
        ("type"@, js("response.output_item.added"@)),
        ("output_index"@, jn(idx as int)),
        ("item"@, body@[2].1@),
    ]);
    object(body)
}

fn args_delta_json(fc_id: &str, idx: usize, delta: &str) -> (r: Json)
    ensures
        r@ == args_delta_body(fc_id@, idx as int, delta@),
{
    let body = vec![
        pair("type", jstr("response.function_call_arguments.delta")),
        pair("item_id", jstr(fc_id)),
        pair("output_index", jnum(idx)),
        pair("delta", jstr(delta)),
    ];
    assert(fields_view(body@) =~= seq![
        ("type"@, js("response.function_call_arguments.delta"@)),
        ("item_id"@, js(fc_id@)),
        ("output_index"@, jn(idx as int)),
        ("delta"@, js(delta@)),
    ]);
    object(body)
}

fn start_json(ty: &str, s: &StreamState) -> (r: Json)
    ensures
        r@ == start_body(ty@, s@),
{
    let resp = vec![
        pair("id", jstr(s.response_id.as_str())),
        pair("object", jstr("response")),
        pair("created_at", Json::Number(Number::PosInt(s.created))),
        pair("model", jstr(s.model.as_str())),
        pair("status", jstr("in_progress")),
        pair("output", jarr()),
    ];
    assert(fields_view(resp@) =~= seq![
        ("id"@, js(s@.response_id)),
        ("object"@, js("response"@)),
        ("created_at"@, JsonV::Number(NumberV::PosInt(s.created))),
        ("model"@, js(s@.model)),
        ("status"@, js("in_progress"@)),
        ("output"@, jempty()),
    ]);
    let body = vec![pair("type", jstr(ty)), pair("response", object(resp))];
    assert(fields_view(body@) =~= seq![("type"@, js(ty@)), ("response"@, body@[1].1@)]);
    object(body)
}

// ─── Applying a chunk ───────────────────────────────────────────────────

pub open spec fn acc_of(s: StreamV, events: Seq<StreamEvent>, has_content: bool, used: usize) -> ChunkAcc {
    ChunkAcc { s, events: events_view(events), has_content, used: used as nat }
}

pub open spec fn strings_of(s: Seq<String>) -> Seq<Seq<char>> {
    s.map_values(|x: String| x@)
}

proof fn lemma_count_le(calls: Seq<AccV>)
    ensures
        count_added(calls) <= calls.len(),
    decreases calls.len(),
{
    if calls.len() > 0 {
        lemma_count_le(calls.drop_last());
    }
}

proof fn lemma_count_append_empty(calls: Seq<AccV>, k: nat)
    ensures
        count_added(calls + Seq::new(k, |i: int| empty_acc())) == count_added(calls),
    decreases k,
{
    if k > 0 {
        let t = calls + Seq::new(k, |i: int| empty_acc());
        assert(t.drop_last() =~= calls + Seq::new((k - 1) as nat, |i: int| empty_acc()));
        lemma_count_append_empty(calls, (k - 1) as nat);
    } else {
        assert(calls + Seq::new(k, |i: int| empty_acc()) =~= calls);
    }
}

proof fn lemma_count_update(calls: Seq<AccV>, i: int, a: AccV)
    requires
        0 <= i < calls.len(),
    ensures
        count_added(calls.update(i, a)) + (if calls[i].item_added { 1nat } else { 0nat })
            == count_added(calls) + (if a.item_added { 1nat } else { 0nat }),
    decreases calls.len(),
{
    let u = calls.update(i, a);
    if i == calls.len() - 1 {
        assert(u.drop_last() =~= calls.drop_last());
    } else {
        assert(u.drop_last() =~= calls.drop_last().update(i, a));
        lemma_count_update(calls.drop_last(), i, a);
    }
}

fn nonempty_str_at<'a>(v: &'a Json, key: &str) -> (r: Option<&'a str>)
    ensures
        match r {
            Some(t) => nonempty_str(v@.at(key@)) == Some(t@),
            None => nonempty_str(v@.at(key@)).is_none(),
        },
{
    match v.get_str(key) {
        Some(t) => {
            if t.is_empty() {
                None
            } else {
                Some(t)
            }
        },
        None => None,
    }
}

fn reasoning_step(state: &mut StreamState, events: &mut Vec<StreamEvent>, has_content: &mut bool, delta: &Json)
    requires
        stream_wf(old(state)@),
    ensures
        stream_wf(final(state)@),
        acc_of(final(state)@, final(events)@, *final(has_content), 0) == reasoning_delta(
            acc_of(old(state)@, old(events)@, *old(has_content), 0),
            delta@,
        ),
{
    match nonempty_str_at(delta, "reasoning_content") {
        Some(r) => {
            let ghost e0 = events@;
            if !state.reasoning_item_added {
                let idx = state.next_output_index;
                proof {
                    lemma_count_le(state@.calls);
                }
                state.next_output_index = idx + 1;
                events.push(StreamEvent::OutputItemAdded(reasoning_added_json(idx, state.reasoning_id.as_str())));
                events.push(
                    StreamEvent::ContentPartAdded(
                        part_added_json(idx, state.reasoning_id.as_str(), empty_reasoning_part_json()),
                    ),
                );
                state.reasoning_item_added = true;
            }
            let ghost e1 = events@;
            state.reasoning_content.append(r);
            events.push(
                StreamEvent::ReasoningTextDelta(
                    delta_json("response.reasoning_text.delta", state.reasoning_id.as_str(), 0, r),
                ),
            );
            *has_content = true;
            assert(events_view(events@) =~= events_view(e1).push(events@.last()@));
            assert(events_view(e1) =~= if old(state).reasoning_item_added {
                events_view(e0)
            } else {
                events_view(e0) + seq![e1[e0.len() as int]@, e1[e0.len() as int + 1]@]
            });
        },
        None => {},
    }
}

fn text_step(state: &mut StreamState, events: &mut Vec<StreamEvent>, has_content: &mut bool, delta: &Json)
    requires
        stream_wf(old(state)@),
    ensures
        stream_wf(final(state)@),
        acc_of(final(state)@, final(events)@, *final(has_content), 0) == text_delta(
            acc_of(old(state)@, old(events)@, *old(has_content), 0),
            delta@,
        ),
{
    match nonempty_str_at(delta, "content") {
        Some(c) => {
            let ghost e0 = events@;
            if !state.message_item_added {
                let idx = state.next_output_index;
                proof {
                    lemma_count_le(state@.calls);
                }
                state.next_output_index = idx + 1;
                state.msg_output_index = idx;
                events.push(StreamEvent::OutputItemAdded(message_added_json(idx, state.msg_id.as_str())));
                events.push(
                    StreamEvent::ContentPartAdded(
                        part_added_json(idx, state.msg_id.as_str(), text_part_json("")),
                    ),
                );
                proof {
                    reveal_strlit("");
                }
                assert(""@ =~= Seq::<char>::empty());
                state.message_item_added = true;
            }
            let ghost e1 = events@;
            state.accumulated_text.append(c);
            events.push(
                StreamEvent::OutputTextDelta(
                    delta_json("response.output_text.delta", state.msg_id.as_str(), state.msg_output_index, c),
                ),
            );
            *has_content = true;
            assert(events_view(events@) =~= events_view(e1).push(events@.last()@));
            assert(events_view(e1) =~= if old(state).message_item_added {
                events_view(e0)
            } else {
                events_view(e0) + seq![e1[e0.len() as int]@, e1[e0.len() as int + 1]@]
            });
        },
        None => {},
    }
}

fn copy_acc(a: &ToolCallAccumulator) -> (r: ToolCallAccumulator)
    ensures
        r@ == a@,
{
    ToolCallAccumulator {
        id: a.id.clone(),
        name: a.name.clone(),
        arguments: a.arguments.clone(),
        index: a.index,
        item_added: a.item_added,
        fc_id: a.fc_id.clone(),
        output_index: a.output_index,
    }
}

fn delta_index_of(tc: &Json) -> (r: u32)
    ensures
        r == delta_index(tc@),
{
    match tc.get("index") {
        Some(v) => match v.as_u64() {
            Some(n) => n as u32,
            None => 0,
        },
        None => 0,
    }
}

fn call_step(
    state: &mut StreamState,
    events: &mut Vec<StreamEvent>,
    has_content: &mut bool,
    used: &mut usize,
    tc: &Json,
    ids: &Vec<String>,
)
    requires
        stream_wf(old(state)@),
        *old(used) < ids@.len(),
        delta_index(tc@) + 4 <= usize::MAX,
    ensures
        stream_wf(final(state)@),
        *final(used) <= *old(used) + 1,
        acc_of(final(state)@, final(events)@, *final(has_content), *final(used)) == call_delta(
            acc_of(old(state)@, old(events)@, *old(has_content), *old(used)),
            tc@,
            strings_of(ids@),
        ),
{
    let ghost s0 = state@;
    let ghost e0 = events@;
    let index = delta_index_of(tc);
    let mut calls: Vec<ToolCallAccumulator> = Vec::new();
    std::mem::swap(&mut calls, &mut state.tool_calls);
    let ghost c0 = calls@.map_values(|a: ToolCallAccumulator| a@);
    let ghost n0 = calls@.len();
    while calls.len() <= index as usize
        invariant
            n0 <= calls@.len() <= if n0 > index as int + 1 { n0 as int } else { index as int + 1 },
            calls@.map_values(|a: ToolCallAccumulator| a@) == c0 + Seq::new(
                (calls@.len() - n0) as nat,
                |i: int| empty_acc(),
            ),
        decreases index as int + 1 - calls@.len(),
    {
        let ghost before = calls@;
        calls.push(ToolCallAccumulator::new());
        assert(calls@.map_values(|a: ToolCallAccumulator| a@) =~= c0 + Seq::new(
            (calls@.len() - n0) as nat,
            |i: int| empty_acc(),
        )) by {
            assert(calls@.map_values(|a: ToolCallAccumulator| a@) =~= before.map_values(
                |a: ToolCallAccumulator| a@,
            ).push(empty_acc()));
        }
    }
    let ghost grown = calls@.map_values(|a: ToolCallAccumulator| a@);
    assert(grown == grow(s0.calls, index as int + 1));
    proof {
        lemma_count_append_empty(c0, (calls@.len() - n0) as nat);
        lemma_count_le(grown);
    }
    let i = index as usize;
    let mut acc = copy_acc(&calls[i]);
    assert(acc@ == grown[i as int]);
    acc.index = index;
    match tc.get_str("id") {
        Some(id) => {
            acc.id = owned(id);
        },
        None => {},
    }
    let ghost acc1 = acc@;
    if acc.fc_id.as_str().is_empty() {
        assert(*used < ids.len());
        acc.fc_id = ids[*used].clone();
        assert(acc.fc_id@ == strings_of(ids@)[*old(used) as int]);
        *used = *used + 1;
    }
    let ghost acc2 = acc@;
    if !acc.item_added && !acc.id.as_str().is_empty() {
        let idx = state.next_output_index;
        state.next_output_index = idx + 1;
        acc.output_index = idx;
        events.push(StreamEvent::OutputItemAdded(call_added_json(idx, acc.fc_id.as_str(), acc.id.as_str())));
        acc.item_added = true;
    }
    let ghost e1 = events@;
    assert(events_view(e1) =~= if !acc2.item_added && acc2.id.len() > 0 {
        events_view(e0).push(e1.last()@)
    } else {
        events_view(e0)
    });
    match tc.get("function") {
        Some(func) => {
            match func.get_str("name") {
                Some(n) => {
                    acc.name.append(n);
                },
                None => {},
            }
            match func.get_str("arguments") {
                Some(a) => {
                    acc.arguments.append(a);
                    if acc.item_added {
                        events.push(
                            StreamEvent::FunctionCallArgumentsDelta(
                                args_delta_json(acc.fc_id.as_str(), acc.output_index, a),
                            ),
                        );
                        assert(events_view(events@) =~= events_view(e1).push(events@.last()@));
                    }
                },
                None => {},
            }
        },
        None => {},
    }
    let ghost acc4 = acc@;
    calls.set(i, acc);
    assert(calls@.map_values(|a: ToolCallAccumulator| a@) =~= grown.update(i as int, acc4));
    proof {
        lemma_count_update(grown, i as int, acc4);
    }
    state.tool_calls = calls;
    *has_content = true;
}

fn choice_step(
    state: &mut StreamState,
    events: &mut Vec<StreamEvent>,
    has_content: &mut bool,
    used: &mut usize,
    choice: &Json,
    ids: &Vec<String>,
)
    requires
        stream_wf(old(state)@),
        *old(used) + choice_delta_count(choice@) <= ids@.len(),
        choice_indices_fit(choice@),
    ensures
        stream_wf(final(state)@),
        *final(used) <= *old(used) + choice_delta_count(choice@),
        acc_of(final(state)@, final(events)@, *final(has_content), *final(used)) == choice_delta(
            acc_of(old(state)@, old(events)@, *old(has_content), *old(used)),
            choice@,
            strings_of(ids@),
        ),
{
    match choice.get("delta") {
        Some(delta) => {
            let ghost a0 = acc_of(state@, events@, *has_content, *used);
            reasoning_step(state, events, has_content, delta);
            let ghost a1 = acc_of(state@, events@, *has_content, *used);
            assert(a1 == reasoning_delta(a0, delta@));
            text_step(state, events, has_content, delta);
            let ghost b = acc_of(state@, events@, *has_content, *used);
            assert(b == text_delta(a1, delta@));
            match delta.get("tool_calls") {
                Some(Json::Array(tcs)) => {
                    let ghost tv = seq_view(tcs@);
                    let ghost u0 = *used;
                    assert(delta@.at("tool_calls"@).as_array() == Some(tv));
                    let mut j: usize = 0;
                    while j < tcs.len()
                        invariant
                            j <= tcs@.len(),
                            tv == seq_view(tcs@),
                            forall|k: int| 0 <= k < tv.len() ==> #[trigger] delta_index(tv[k]) + 4 <= usize::MAX,
                            u0 + tcs@.len() <= ids@.len(),
                            *used <= u0 + j,
                            stream_wf(state@),
                            acc_of(state@, events@, *has_content, *used) == call_deltas(
                                b,
                                tv,
                                j as int,
                                strings_of(ids@),
                            ),
                        decreases tcs.len() - j,
                    {
                        assert(delta_index(tv[j as int]) + 4 <= usize::MAX);
                        call_step(state, events, has_content, used, &tcs[j], ids);
                        j = j + 1;
                    }
                },
                _ => {},
            }
        },
        None => {},
    }
}

fn choices_step(
    state: &mut StreamState,
    events: &mut Vec<StreamEvent>,
    has_content: &mut bool,
    used: &mut usize,
    cs: &Vec<Json>,
    ids: &Vec<String>,
)
    requires
        stream_wf(old(state)@),
        *old(used) == 0,
        delta_count(seq_view(cs@)) <= ids@.len(),
        indices_fit(seq_view(cs@)),
    ensures
        stream_wf(final(state)@),
        acc_of(final(state)@, final(events)@, *final(has_content), *final(used)) == choice_deltas(
            acc_of(old(state)@, old(events)@, *old(has_content), *old(used)),
            seq_view(cs@),
            cs@.len() as int,
            strings_of(ids@),
        ),
{
    let ghost cv = seq_view(cs@);
    let ghost a0 = acc_of(state@, events@, *has_content, *used);
    let mut i: usize = 0;
    while i < cs.len()
        invariant
            i <= cs@.len(),
            cv == seq_view(cs@),
            delta_count(cv) <= ids@.len(),
            indices_fit(cv),
            *used <= delta_count(cv.take(i as int)),
            stream_wf(state@),
            acc_of(state@, events@, *has_content, *used) == choice_deltas(
                a0,
                cv,
                i as int,
                strings_of(ids@),
            ),
        decreases cs.len() - i,
    {
        proof {
            lemma_delta_count_prefix(cv, i + 1);
            assert(cv.take(i + 1).drop_last() =~= cv.take(i as int));
            assert(cv.take(i + 1).last() == cv[i as int]);
            assert(choice_indices_fit(cv[i as int]));
        }
        choice_step(state, events, has_content, used, &cs[i], ids);
        i = i + 1;
    }
}

/// Applies a parsed chunk; new tool calls take their identifiers from
/// `fresh_ids` in order.
pub fn apply_chunk(state: &mut StreamState, chunk: &Json, fresh_ids: &Vec<String>) -> (r: Option<Vec<StreamEvent>>)
    requires
        old(state).wf(),
        delta_count(chunk_choices(chunk@)) <= fresh_ids@.len(),
        indices_fit(chunk_choices(chunk@)),
    ensures
        final(state).wf(),
        (final(state)@, match r {
            Some(v) => Some(events_view(v@)),
            None => None,
        }) == chunk_result(old(state)@, chunk@, strings_of(fresh_ids@)),
{
    let ghost s0 = state@;
    match chunk.get("created") {
        Some(v) => match v.as_u64() {
            Some(c) => {
                state.created = c;
            },
            None => {},
        },
        None => {},
    }
    let choices: Option<&Vec<Json>> = match chunk.get("choices") {
        Some(Json::Array(a)) => Some(a),
        _ => None,
    };
    match choices {
        Some(a) => {
            if a.len() == 0 {
                assert(seq_view(a@) =~= Seq::<JsonV>::empty());
                match chunk.get("usage") {
                    Some(u) => {
                        state.usage = Some(copy_json(u));
                    },
                    None => {},
                }
                return None;
            }
        },
        None => {},
    }
    let ghost s1 = state@;
    let mut events: Vec<StreamEvent> = Vec::new();
    let mut has_content = false;
    let mut used: usize = 0;
    assert(events_view(events@) =~= Seq::<EventV>::empty());
    let ghost a0 = ChunkAcc { s: s1, events: Seq::empty(), has_content: false, used: 0 };
    match choices {
        Some(cs) => {
            choices_step(state, &mut events, &mut has_content, &mut used, cs, fresh_ids);
        },
        None => {},
    }
    let ghost a = acc_of(state@, events@, has_content, used);
    if has_content && !state.has_started {
        let ghost e0 = events@;
        events.insert(0, StreamEvent::Created(start_json("response.created", state)));
        events.insert(1, StreamEvent::InProgress(start_json("response.in_progress", state)));
        state.has_started = true;
        assert(events_view(events@) =~= seq![
            ev(EventKind::Created, start_body("response.created"@, a.s)),
            ev(EventKind::InProgress, start_body("response.in_progress"@, a.s)),
        ] + events_view(e0));
    }
    if events.len() == 0 {
        None
    } else {
        Some(events)
    }
}

proof fn lemma_delta_count_prefix(cs: Seq<JsonV>, i: int)
    requires
        0 <= i <= cs.len(),
    ensures
        delta_count(cs.take(i)) <= delta_count(cs),
    decreases cs.len() - i,
{
    if i < cs.len() {
        lemma_delta_count_prefix(cs, i + 1);
        assert(cs.take(i + 1).drop_last() =~= cs.take(i));
    } else {
        assert(cs.take(i) =~= cs);
    }
}

// ─── Completion ─────────────────────────────────────────────────────────

pub open spec fn reasoning_text_part(text: Seq<char>) -> JsonV {
    object_of(seq![("type"@, js("reasoning_text"@)), ("text"@, js(text))])
}

pub open spec fn reasoning_item(s: StreamV) -> JsonV {
    object_of(
        seq![
            ("type"@, js("reasoning"@)),
            ("id"@, js(s.reasoning_id)),
            ("status"@, js("completed"@)),
            ("summary"@, jempty()),
            ("content"@, JsonV::Array(seq![reasoning_text_part(s.reasoning)])),
        ],
    )
}

pub open spec fn message_item(s: StreamV) -> JsonV {
    object_of(
        seq![
            ("type"@, js("message"@)),
            ("id"@, js(s.msg_id)),
            ("role"@, js("assistant"@)),
            ("status"@, js("completed"@)),
            ("content"@, JsonV::Array(seq![text_part(s.text)])),
        ],
    )
}

pub open spec fn call_item(fc_id: Seq<char>, a: AccV) -> JsonV {
    object_of(
        seq![
            ("type"@, js("function_call"@)),
            ("id"@, js(fc_id)),
            ("call_id"@, js(a.id)),
            ("name"@, js(a.name)),
            ("arguments"@, js(a.arguments)),
            ("status"@, js("completed"@)),
        ],
    )
}

pub open spec fn text_done_body(ty: Seq<char>, item_id: Seq<char>, idx: int, text: Seq<char>) -> JsonV {
    object_of(
        seq![
            ("type"@, js(ty)),
            ("item_id"@, js(item_id)),
            ("output_index"@, jn(idx)),
            ("content_index"@, jn(0)),
            ("text"@, js(text)),
        ],
    )
}

pub open spec fn part_done_body(item_id: Seq<char>, idx: int, part: JsonV) -> JsonV {
    object_of(
        seq![
            ("type"@, js("response.content_part.done"@)),
            ("item_id"@, js(item_id)),
            ("output_index"@, jn(idx)),
            ("content_index"@, jn(0)),
            ("part"@, part),
        ],
    )
}

pub open spec fn item_done_body(idx: int, item: JsonV) -> JsonV {
    object_of(
        seq![("type"@, js("response.output_item.done"@)), ("output_index"@, jn(idx)), ("item"@, item)],
    )
}

pub open spec fn args_done_body(fc_id: Seq<char>, a: AccV) -> JsonV {
    object_of(
        seq![
            ("type"@, js("response.function_call_arguments.done"@)),
            ("item_id"@, js(fc_id)),
            ("output_index"@, jn(a.output_index as int)),
            ("arguments"@, js(a.arguments)),
            ("name"@, js(a.name)),
        ],
    )
}

/// Events and output items written so far, and how many fresh identifiers were taken.
pub ghost struct DoneAcc {
    pub events: Seq<EventV>,
    pub items: Seq<JsonV>,
    pub used: nat,
}

pub open spec fn close_call(d: DoneAcc, a: AccV, ids: Seq<Seq<char>>) -> DoneAcc {
    if a.id.len() == 0 {
        d
    } else {
        let fc_id = if a.fc_id.len() == 0 {
            ids[d.used as int]
        } else {
            a.fc_id
        };
        let used = if a.fc_id.len() == 0 {
            d.used + 1
        } else {
            d.used
        };
        DoneAcc {
            events: if a.item_added {
                d.events + seq![
                    ev(EventKind::FunctionCallArgumentsDone, args_done_body(fc_id, a)),
                    ev(EventKind::OutputItemDone, item_done_body(a.output_index as int, call_item(fc_id, a))),
                ]
            } else {
                d.events
            },
            items: d.items.push(call_item(fc_id, a)),
            used,
        }
    }
}

pub open spec fn close_calls(d: DoneAcc, calls: Seq<AccV>, n: int, ids: Seq<Seq<char>>) -> DoneAcc
    decreases n,
{
    if n <= 0 {
        d
    } else {
        close_call(close_calls(d, calls, n - 1, ids), calls[n - 1], ids)
    }
}

/// How many calls are closed under a fresh identifier.
pub open spec fn unnamed_calls(calls: Seq<AccV>) -> nat
    decreases calls.len(),
{
    if calls.len() == 0 {
        0
    } else {
        unnamed_calls(calls.drop_last()) + if calls.last().id.len() > 0 && calls.last().fc_id.len()
            == 0 {
            1nat
        } else {
            0nat
        }
    }
}

pub open spec fn completed_response(s: StreamV, items: Seq<JsonV>) -> JsonV {
    let base = seq![
        ("id"@, js(s.response_id)),
        ("object"@, js("response"@)),
        ("model"@, js(s.model)),
        ("status"@, js("completed"@)),
        ("output"@, JsonV::Array(items)),
    ];
    object_of(
        match s.usage {
            Some(u) => base.push(("usage"@, u)),
            None => base,
        },
    )
}

/// The events that close a stream: each open item is closed, then the
/// response is completed with every output item.
pub open spec fn completion_events(s: StreamV, ids: Seq<Seq<char>>) -> Seq<EventV> {
    let r = if s.reasoning_added {
        DoneAcc {
            events: seq![
                ev(EventKind::ReasoningTextDone, text_done_body("response.reasoning_text.done"@, s.reasoning_id, 0, s.reasoning)),
                ev(EventKind::ContentPartDone, part_done_body(s.reasoning_id, 0, reasoning_text_part(s.reasoning))),
                ev(EventKind::OutputItemDone, item_done_body(0, reasoning_item(s))),
            ],
            items: seq![reasoning_item(s)],
            used: 0,
        }
    } else {
        DoneAcc { events: Seq::empty(), items: Seq::empty(), used: 0 }
    };
    let c = close_calls(r, s.calls, s.calls.len() as int, ids);
    let m = if s.message_added {
        DoneAcc {
            events: c.events + seq![
                ev(EventKind::OutputTextDone, text_done_body("response.output_text.done"@, s.msg_id, s.msg_output_index as int, s.text)),
                ev(EventKind::ContentPartDone, part_done_body(s.msg_id, s.msg_output_index as int, text_part(s.text))),
                ev(EventKind::OutputItemDone, item_done_body(s.msg_output_index as int, message_item(s))),
            ],
            items: c.items.push(message_item(s)),
            ..c
        }
    } else if s.text.len() > 0 || s.calls.len() == 0 {
        DoneAcc { items: c.items.push(message_item(s)), ..c }
    } else {
        c
    };
    m.events.push(
        ev(
            EventKind::Completed,
            object_of(
                seq![("type"@, js("response.completed"@)), ("response"@, completed_response(s, m.items))],
            ),
        ),
    )
}

fn reasoning_text_part_json(text: &str) -> (r: Json)
    ensures
        r@ == reasoning_text_part(text@),
{
    let body = vec![pair("type", jstr("reasoning_text")), pair("text", jstr(text))];
    assert(fields_view(body@) =~= seq![("type"@, js("reasoning_text"@)), ("text"@, js(text@))]);
    object(body)
}

fn one(v: Json) -> (r: Json)
    ensures
        r@ == JsonV::Array(seq![v@]),
{
    let ghost x = v@;
    let a = vec![v];
    assert(seq_view(a@) =~= seq![x]);
    Json::Array(a)
}

fn reasoning_item_json(s: &StreamState) -> (r: Json)
    ensures
        r@ == reasoning_item(s@),
{
    let body = vec![
        pair("type", jstr("reasoning")),
        pair("id", jstr(s.reasoning_id.as_str())),
        pair("status", jstr("completed")),
        pair("summary", jarr()),
        pair("content", one(reasoning_text_part_json(s.reasoning_content.as_str()))),
    ];
    assert(fields_view(body@) =~= seq![
        ("type"@, js("reasoning"@)),
        ("id"@, js(s@.reasoning_id)),
        ("status"@, js("completed"@)),
        ("summary"@, jempty()),
        ("content"@, JsonV::Array(seq![reasoning_text_part(s@.reasoning)])),
    ]);
    object(body)
}

fn message_item_json(s: &StreamState) -> (r: Json)
    ensures
        r@ == message_item(s@),
{
    let body = vec![
        pair("type", jstr("message")),
        pair("id", jstr(s.msg_id.as_str())),
        pair("role", jstr("assistant")),
        pair("status", jstr("completed")),
        pair("content", one(text_part_json(s.accumulated_text.as_str()))),
    ];
    assert(fields_view(body@) =~= seq![
        ("type"@, js("message"@)),
        ("id"@, js(s@.msg_id)),
        ("role"@, js("assistant"@)),
        ("status"@, js("completed"@)),
        ("content"@, JsonV::Array(seq![text_part(s@.text)])),
    ]);
    object(body)
}

fn call_item_json(fc_id: &str, a: &ToolCallAccumulator) -> (r: Json)
    ensures
        r@ == call_item(fc_id@, a@),
{
    let body = vec![
        pair("type", jstr("function_call")),
        pair("id", jstr(fc_id)),
        pair("call_id", jstr(a.id.as_str())),
        pair("name", jstr(a.name.as_str())),
        pair("arguments", jstr(a.arguments.as_str())),
        pair("status", jstr("completed")),
    ];
    assert(fields_view(body@) =~= seq![
        ("type"@, js("function_call"@)),
        ("id"@, js(fc_id@)),
        ("call_id"@, js(a@.id)),
        ("name"@, js(a@.name)),
        ("arguments"@, js(a@.arguments)),
        ("status"@, js("completed"@)),
    ]);
    object(body)
}

fn text_done_json(ty: &str, item_id: &str, idx: usize, text: &str) -> (r: Json)
    ensures
        r@ == text_done_body(ty@, item_id@, idx as int, text@),
{
    let body = vec![
        pair("type", jstr(ty)),
        pair("item_id", jstr(item_id)),
        pair("output_index", jnum(idx)),
        pair("content_index", jnum(0)),
        pair("text", jstr(text)),
    ];
    assert(fields_view(body@) =~= seq![
        ("type"@, js(ty@)),
        ("item_id"@, js(item_id@)),
        ("output_index"@, jn(idx as int)),
        ("content_index"@, jn(0)),
        ("text"@, js(text@)),
    ]);
    object(body)
}

fn part_done_json(item_id: &str, idx: usize, part: Json) -> (r: Json)
    ensures
        r@ == part_done_body(item_id@, idx as int, part@),
{
    let ghost pv = part@;
    let body = vec![
        pair("type", jstr("response.content_part.done")),
        pair("item_id", jstr(item_id)),
        pair("output_index", jnum(idx)),
        pair("content_index", jnum(0)),
        pair("part", part),
    ];
    assert(fields_view(body@) =~= seq![
        ("type"@, js("response.content_part.done"@)),
        ("item_id"@, js(item_id@)),
        ("output_index"@, jn(idx as int)),
        ("content_index"@, jn(0)),
        ("part"@, pv),
    ]);
    object(body)
}

fn item_done_json(idx: usize, item: Json) -> (r: Json)
    ensures
        r@ == item_done_body(idx as int, item@),
{
    let ghost iv = item@;
    let body = vec![
        pair("type", jstr("response.output_item.done")),
        pair("output_index", jnum(idx)),
        pair("item", item),
    ];
    assert(fields_view(body@) =~= seq![
        ("type"@, js("response.output_item.done"@)),
        ("output_index"@, jn(idx as int)),
        ("item"@, iv),
    ]);
    object(body)
}

fn args_done_json(fc_id: &str, a: &ToolCallAccumulator) -> (r: Json)
    ensures
        r@ == args_done_body(fc_id@, a@),
{
    let body = vec![
        pair("type", jstr("response.function_call_arguments.done")),
        pair("item_id", jstr(fc_id)),
        pair("output_index", jnum(a.output_index)),
        pair("arguments", jstr(a.arguments.as_str())),
        pair("name", jstr(a.name.as_str())),
    ];
    assert(fields_view(body@) =~= seq![
        ("type"@, js("response.function_call_arguments.done"@)),
        ("item_id"@, js(fc_id@)),
        ("output_index"@, jn(a.output_index as int)),
        ("arguments"@, js(a@.arguments)),
        ("name"@, js(a@.name)),
    ]);
    object(body)
}

fn completed_json(s: &StreamState, items: Vec<Json>) -> (r: Json)
    ensures
        r@ == object_of(
            seq![("type"@, js("response.completed"@)), ("response"@, completed_response(s@, seq_view(items@)))],
        ),
{
    let ghost iv = seq_view(items@);
    let mut resp = vec![
        pair("id", jstr(s.response_id.as_str())),
        pair("object", jstr("response")),
        pair("model", jstr(s.model.as_str())),
        pair("status", jstr("completed")),
        pair("output", Json::Array(items)),
    ];
    let ghost base = seq![
        ("id"@, js(s@.response_id)),
        ("object"@, js("response"@)),
        ("model"@, js(s@.model)),
        ("status"@, js("completed"@)),
        ("output"@, JsonV::Array(iv)),
    ];
    assert(fields_view(resp@) =~= base);
    match &s.usage {
        Some(u) => {
            resp.push(pair("usage", copy_json(u)));
            assert(fields_view(resp@) =~= base.push(("usage"@, u@)));
        },
        None => {},
    }
    let body = vec![pair("type", jstr("response.completed")), pair("response", object(resp))];
    assert(fields_view(body@) =~= seq![
        ("type"@, js("response.completed"@)),
        ("response"@, completed_response(s@, iv)),
    ]);
    object(body)
}

fn push_events(events: &mut Vec<StreamEvent>, more: Vec<StreamEvent>)
    ensures
        events_view(final(events)@) == events_view(old(events)@) + events_view(more@),
{
    let mut more = more;
    let ghost e0 = events@;
    let ghost m0 = more@;
    events.append(&mut more);
    assert(events_view(events@) =~= events_view(e0) + events_view(m0));
}

/// The events that close the stream; calls without an output item
/// identifier take one from `fresh_ids`, in order.
pub fn completion_events_with(state: &StreamState, fresh_ids: &Vec<String>) -> (r: Vec<StreamEvent>)
    requires
        unnamed_calls(state@.calls) <= fresh_ids@.len(),
    ensures
        events_view(r@) == completion_events(state@, strings_of(fresh_ids@)),
{
    let ghost sv = state@;
    let ghost idv = strings_of(fresh_ids@);
    let mut events: Vec<StreamEvent> = Vec::new();
    let mut items: Vec<Json> = Vec::new();
    let mut used: usize = 0;
    if state.reasoning_item_added {
        let rid = state.reasoning_id.as_str();
        let text = state.reasoning_content.as_str();
        let evs = vec![
            StreamEvent::ReasoningTextDone(text_done_json("response.reasoning_text.done", rid, 0, text)),
            StreamEvent::ContentPartDone(part_done_json(rid, 0, reasoning_text_part_json(text))),
            StreamEvent::OutputItemDone(item_done_json(0, reasoning_item_json(state))),
        ];
        assert(events_view(evs@) =~= seq![
            ev(EventKind::ReasoningTextDone, text_done_body("response.reasoning_text.done"@, sv.reasoning_id, 0, sv.reasoning)),
            ev(EventKind::ContentPartDone, part_done_body(sv.reasoning_id, 0, reasoning_text_part(sv.reasoning))),
            ev(EventKind::OutputItemDone, item_done_body(0, reasoning_item(sv))),
        ]);
        push_events(&mut events, evs);
        items.push(reasoning_item_json(state));
        assert(events_view(events@) =~= events_view(evs@));
        assert(seq_view(items@) =~= seq![reasoning_item(sv)]);
    }
    let ghost r0 = DoneAcc { events: events_view(events@), items: seq_view(items@), used: 0 };
    assert(r0 == (if sv.reasoning_added {
        DoneAcc {
            events: seq![
                ev(EventKind::ReasoningTextDone, text_done_body("response.reasoning_text.done"@, sv.reasoning_id, 0, sv.reasoning)),
                ev(EventKind::ContentPartDone, part_done_body(sv.reasoning_id, 0, reasoning_text_part(sv.reasoning))),
                ev(EventKind::OutputItemDone, item_done_body(0, reasoning_item(sv))),
            ],
            items: seq![reasoning_item(sv)],
            used: 0,
        }
    } else {
        DoneAcc { events: Seq::empty(), items: Seq::empty(), used: 0 }
    })) by {
        assert(events_view(Seq::<StreamEvent>::empty()) =~= Seq::<EventV>::empty());
        assert(seq_view(Seq::<Json>::empty()) =~= Seq::<JsonV>::empty());
    }
    let mut i: usize = 0;
    while i < state.tool_calls.len()
        invariant
            i <= sv.calls.len(),
            sv == state@,
            idv == strings_of(fresh_ids@),
            unnamed_calls(sv.calls) <= fresh_ids@.len(),
            used <= unnamed_calls(sv.calls.take(i as int)),
            (DoneAcc { events: events_view(events@), items: seq_view(items@), used: used as nat }) == close_calls(r0, sv.calls, i as int, idv),
        decreases sv.calls.len() - i,
    {
        let ghost d0 = DoneAcc { events: events_view(events@), items: seq_view(items@), used: used as nat };
        proof {
            lemma_unnamed_prefix(sv.calls, i + 1);
            assert(sv.calls.take(i + 1).drop_last() =~= sv.calls.take(i as int));
        }
        let tc = &state.tool_calls[i];
        assert(tc@ == sv.calls[i as int]);
        if !tc.id.as_str().is_empty() {
            let fc_id = if tc.fc_id.as_str().is_empty() {
                assert(used < fresh_ids.len());
                let f = fresh_ids[used].clone();
                assert(f@ == idv[used as int]);
                used = used + 1;
                f
            } else {
                tc.fc_id.clone()
            };
            if tc.item_added {
                let evs = vec![
                    StreamEvent::FunctionCallArgumentsDone(args_done_json(fc_id.as_str(), tc)),
                    StreamEvent::OutputItemDone(item_done_json(tc.output_index, call_item_json(fc_id.as_str(), tc))),
                ];
                assert(events_view(evs@) =~= seq![
                    ev(EventKind::FunctionCallArgumentsDone, args_done_body(fc_id@, tc@)),
                    ev(EventKind::OutputItemDone, item_done_body(tc@.output_index as int, call_item(fc_id@, tc@))),
                ]);
                push_events(&mut events, evs);
            }
            let ghost before = items@;
            items.push(call_item_json(fc_id.as_str(), tc));
            assert(seq_view(items@) =~= seq_view(before).push(call_item(fc_id@, tc@)));
        }
        i = i + 1;
    }
    assert(sv.calls.take(sv.calls.len() as int) =~= sv.calls);
    let ghost c = close_calls(r0, sv.calls, sv.calls.len() as int, idv);
    if state.message_item_added {
        let mid = state.msg_id.as_str();
        let text = state.accumulated_text.as_str();
        let idx = state.msg_output_index;
        let evs = vec![
            StreamEvent::OutputTextDone(text_done_json("response.output_text.done", mid, idx, text)),
            StreamEvent::ContentPartDone(part_done_json(mid, idx, text_part_json(text))),
            StreamEvent::OutputItemDone(item_done_json(idx, message_item_json(state))),
        ];
        assert(events_view(evs@) =~= seq![
            ev(EventKind::OutputTextDone, text_done_body("response.output_text.done"@, sv.msg_id, sv.msg_output_index as int, sv.text)),
            ev(EventKind::ContentPartDone, part_done_body(sv.msg_id, sv.msg_output_index as int, text_part(sv.text))),
            ev(EventKind::OutputItemDone, item_done_body(sv.msg_output_index as int, message_item(sv))),
        ]);
        push_events(&mut events, evs);
        let ghost before = items@;
        items.push(message_item_json(state));
        assert(seq_view(items@) =~= seq_view(before).push(message_item(sv)));
    } else if !state.accumulated_text.as_str().is_empty() || state.tool_calls.len() == 0 {
        let ghost before = items@;
        items.push(message_item_json(state));
        assert(seq_view(items@) =~= seq_view(before).push(message_item(sv)));
    }
    let ghost e2 = events@;
    events.push(StreamEvent::Completed(completed_json(state, items)));
    assert(events_view(events@) =~= events_view(e2).push(events@.last()@));
    events
}

proof fn lemma_unnamed_prefix(calls: Seq<AccV>, i: int)
    requires
        0 <= i <= calls.len(),
    ensures
        unnamed_calls(calls.take(i)) <= unnamed_calls(calls),
    decreases calls.len() - i,
{
    if i < calls.len() {
        lemma_unnamed_prefix(calls, i + 1);
        assert(calls.take(i + 1).drop_last() =~= calls.take(i));
    } else {
        assert(calls.take(i) =~= calls);
    }
}

// ─── Processing the stream ──────────────────────────────────────────────

pub open spec fn all_ids(ids: Seq<Seq<char>>, prefix: Seq<char>) -> bool {
    forall|i: int| 0 <= i < ids.len() ==> is_id(#[trigger] ids[i], prefix)
}

fn new_ids(n: usize, prefix: &str) -> (r: Vec<String>)
    ensures
        r@.len() == n,
        all_ids(strings_of(r@), prefix@),
{
    let mut r: Vec<String> = Vec::new();
    let mut i: usize = 0;
    while i < n
        invariant
            i <= n,
            r@.len() == i,
            forall|k: int| 0 <= k < i ==> is_id((#[trigger] r@[k])@, prefix@),
        decreases n - i,
    {
        r.push(new_id(prefix));
        i = i + 1;
    }
    assert forall|k: int| 0 <= k < r@.len() implies is_id(#[trigger] strings_of(r@)[k], prefix@) by {
        assert(strings_of(r@)[k] == r@[k]@);
    }
    r
}

fn count_unnamed(calls: &Vec<ToolCallAccumulator>) -> (r: usize)
    ensures
        r == unnamed_calls(calls@.map_values(|a: ToolCallAccumulator| a@)),
{
    let ghost cv = calls@.map_values(|a: ToolCallAccumulator| a@);
    let mut n: usize = 0;
    let mut i: usize = 0;
    while i < calls.len()
        invariant
            i <= calls@.len(),
            cv == calls@.map_values(|a: ToolCallAccumulator| a@),
            n == unnamed_calls(cv.take(i as int)),
            n <= i,
        decreases calls.len() - i,
    {
        assert(cv.take(i + 1).drop_last() =~= cv.take(i as int));
        assert(cv[i as int] == calls@[i as int]@);
        if !calls[i].id.as_str().is_empty() && calls[i].fc_id.as_str().is_empty() {
            n = n + 1;
        }
        i = i + 1;
    }
    assert(cv.take(calls@.len() as int) =~= cv);
    n
}

/// The events that close the stream; calls without an output item
/// identifier get a fresh one.
pub fn build_completion_events(state: &StreamState) -> (r: Vec<StreamEvent>)
    ensures
        exists|ids: Seq<Seq<char>>|
            ids.len() == unnamed_calls(state@.calls) && all_ids(ids, "fc_"@) && events_view(r@)
                == #[trigger] completion_events(state@, ids),
{
    let n = count_unnamed(&state.tool_calls);
    let ids = new_ids(n, "fc_");
    let r = completion_events_with(state, &ids);
    assert(events_view(r@) == completion_events(state@, strings_of(ids@)));
    r
}

fn choice_count(c: &Json) -> (k: usize)
    ensures
        k == choice_delta_count(c@),
{
    match c.get("delta") {
        Some(d) => match d.get("tool_calls") {
            Some(Json::Array(tcs)) => {
                assert(d@.at("tool_calls"@).as_array() == Some(seq_view(tcs@)));
                tcs.len()
            },
            Some(other) => {
                assert(d@.at("tool_calls"@) == other@);
                0
            },
            None => 0,
        },
        None => 0,
    }
}

/// The number of tool call deltas in a chunk, unless it exceeds `usize::MAX`.
fn count_deltas(chunk: &Json) -> (r: Option<usize>)
    ensures
        match r {
            Some(n) => n == delta_count(chunk_choices(chunk@)),
            None => delta_count(chunk_choices(chunk@)) > usize::MAX,
        },
{
    match chunk.get("choices") {
        Some(Json::Array(cs)) => {
            let ghost cv = seq_view(cs@);
            assert(chunk@.get("choices"@) == Some(JsonV::Array(cv)));
            assert(chunk_choices(chunk@) == cv);
            let mut n: usize = 0;
            let mut i: usize = 0;
            while i < cs.len()
                invariant
                    i <= cs@.len(),
                    cv == seq_view(cs@),
                    cv == chunk_choices(chunk@),
                    n == delta_count(cv.take(i as int)),
                decreases cs.len() - i,
            {
                assert(cv.take(i + 1).drop_last() =~= cv.take(i as int));
                assert(cv.take(i + 1).last() == cv[i as int]);
                assert(cv[i as int] == json_view(cs@[i as int]));
                let k = choice_count(&cs[i]);
                if n > usize::MAX - k {
                    proof {
                        lemma_delta_count_prefix(cv, i + 1);
                        assert(delta_count(cv.take(i + 1)) == n + k);
                    }
                    return None;
                }
                n = n + k;
                i = i + 1;
            }
            assert(cv.take(cs@.len() as int) =~= cv);
            Some(n)
        },
        _ => {
            assert(chunk_choices(chunk@) =~= Seq::<JsonV>::empty());
            Some(0)
        },
    }
}

/// Whether a choice's tool call indices fit (see [`choice_indices_fit`]).
fn choice_fits(c: &Json) -> (r: bool)
    ensures
        r == choice_indices_fit(c@),
{
    match c.get("delta") {
        Some(d) => match d.get("tool_calls") {
            Some(Json::Array(tcs)) => {
                let ghost tv = seq_view(tcs@);
                assert(d@.at("tool_calls"@).as_array() == Some(tv));
                let mut j: usize = 0;
                while j < tcs.len()
                    invariant
                        j <= tcs@.len(),
                        tv == seq_view(tcs@),
                        c@.get("delta"@) == Some(d@),
                        d@.at("tool_calls"@).as_array() == Some(tv),
                        forall|k: int| 0 <= k < j ==> #[trigger] delta_index(tv[k]) + 4 <= usize::MAX,
                    decreases tcs.len() - j,
                {
                    let index = delta_index_of(&tcs[j]);
                    assert(tv[j as int] == tcs@[j as int]@);
                    if index as usize > usize::MAX - 4 {
                        assert(delta_index(tv[j as int]) + 4 > usize::MAX);
                        proof {
                            if choice_indices_fit(c@) {
                                let dd = c@.get("delta"@)->0;
                                assert(dd == d@);
                                let tcs = dd.at("tool_calls"@).as_array()->0;
                                assert(tcs == tv);
                                assert(delta_index(tcs[j as int]) + 4 <= usize::MAX);
                            }
                        }
                        return false;
                    }
                    j = j + 1;
                }
                true
            },
            _ => {
                assert(d@.at("tool_calls"@).as_array() is None);
                true
            },
        },
        None => true,
    }
}

/// Whether a chunk's tool call indices fit (see [`indices_fit`]).
fn chunk_indices_fit(chunk: &Json) -> (r: bool)
    ensures
        r == indices_fit(chunk_choices(chunk@)),
{
    match chunk.get("choices") {
        Some(Json::Array(cs)) => {
            let ghost cv = seq_view(cs@);
            assert(chunk_choices(chunk@) == cv);
            let mut i: usize = 0;
            while i < cs.len()
                invariant
                    i <= cs@.len(),
                    cv == seq_view(cs@),
                    chunk_choices(chunk@) == cv,
                    forall|k: int| 0 <= k < i ==> #[trigger] choice_indices_fit(cv[k]),
                decreases cs.len() - i,
            {
                assert(cv[i as int] == cs@[i as int]@);
                if !choice_fits(&cs[i]) {
                    assert(!choice_indices_fit(cv[i as int]));
                    return false;
                }
                i = i + 1;
            }
            true
        },
        _ => {
            assert(chunk_choices(chunk@) =~= Seq::<JsonV>::empty());
            true
        },
    }
}

/// Reads one Chat stream data line and gives the Responses events it
/// makes, if any: `[DONE]` closes the stream, a chunk that is not JSON
/// gives nothing. Nor does a chunk with a tool call index too large for
/// this platform's `usize` to hold that many calls (with 64 bits every
/// index fits; with fewer, the list of calls could not grow that far).
pub fn process_chunk(state: &mut StreamState, data: &str) -> (r: Option<Vec<StreamEvent>>)
    requires
        old(state).wf(),
    ensures
        final(state).wf(),
        data@ == "[DONE]"@ ==> final(state)@ == old(state)@ && r is Some && exists|ids: Seq<Seq<char>>|
            ids.len() == unnamed_calls(old(state)@.calls) && all_ids(ids, "fc_"@) && events_view(
                r->0@,
            ) == #[trigger] completion_events(old(state)@, ids),
        data@ != "[DONE]"@ ==> match json_of_text(data@) {
            None => final(state)@ == old(state)@ && r is None,
            Some(chunk) => if delta_count(chunk_choices(chunk)) > usize::MAX || !indices_fit(
                chunk_choices(chunk),
            ) {
                final(state)@ == old(state)@ && r is None
            } else {
                exists|ids: Seq<Seq<char>>|
                    ids.len() == delta_count(chunk_choices(chunk)) && all_ids(ids, "fc_"@) && (
                    final(state)@,
                    match r {
                        Some(v) => Some(events_view(v@)),
                        None => None,
                    },
                ) == #[trigger] chunk_result(old(state)@, chunk, ids)
            },
        },
{
    if str_eq(data, "[DONE]") {
        return Some(build_completion_events(state));
    }
    let chunk = match parse_json_text(data) {
        Some(c) => c,
        None => {
            return None;
        },
    };
    let n = match count_deltas(&chunk) {
        Some(n) => n,
        None => {
            return None;
        },
    };
    if !chunk_indices_fit(&chunk) {
        return None;
    }
    let ids = new_ids(n, "fc_");
    let r = apply_chunk(state, &chunk, &ids);
    assert((state@, match r {
        Some(v) => Some(events_view(v@)),
        None => None,
    }) == chunk_result(old(state)@, chunk@, strings_of(ids@)));
    r
}


// ─── The response is announced once ─────────────────────────────────────

/// Events without `response.created` or `response.in_progress`.
pub open spec fn no_announcement(evs: Seq<EventV>) -> bool {
    forall|i: int| 0 <= i < evs.len() ==> (#[trigger] evs[i]).kind != EventKind::Created && evs[i].kind
        != EventKind::InProgress
}

proof fn lemma_quiet_append(e: Seq<EventV>, extra: Seq<EventV>)
    requires
        no_announcement(e),
        no_announcement(extra),
    ensures
        no_announcement(e + extra),
{
    assert forall|i: int| 0 <= i < (e + extra).len() implies (#[trigger] (e + extra)[i]).kind
        != EventKind::Created && (e + extra)[i].kind != EventKind::InProgress by {
        if i < e.len() {
            assert((e + extra)[i] == e[i]);
        } else {
            assert((e + extra)[i] == extra[i - e.len()]);
        }
    }
}

proof fn lemma_quiet_push(e: Seq<EventV>, x: EventV)
    requires
        no_announcement(e),
        x.kind != EventKind::Created && x.kind != EventKind::InProgress,
    ensures
        no_announcement(e.push(x)),
{
    assert(e.push(x) =~= e + seq![x]);
    lemma_quiet_append(e, seq![x]);
}

proof fn lemma_reasoning_delta_quiet(a: ChunkAcc, delta: JsonV)
    requires
        no_announcement(a.events),
    ensures
        no_announcement(reasoning_delta(a, delta).events),
        reasoning_delta(a, delta).s.has_started == a.s.has_started,
{
    match nonempty_str(delta.at("reasoning_content"@)) {
        Some(r) => {
            let rid = a.s.reasoning_id;
            let idx = a.s.next_output_index as int;
            let extra = seq![
                ev(EventKind::OutputItemAdded, reasoning_added_body(idx, rid)),
                ev(EventKind::ContentPartAdded, part_added_body(idx, rid, empty_reasoning_part())),
            ];
            lemma_quiet_append(a.events, extra);
            let e = if !a.s.reasoning_added {
                a.events + extra
            } else {
                a.events
            };
            lemma_quiet_push(
                e,
                ev(EventKind::ReasoningTextDelta, delta_body("response.reasoning_text.delta"@, rid, 0, r)),
            );
        },
        None => {},
    }
}

proof fn lemma_text_delta_quiet(a: ChunkAcc, delta: JsonV)
    requires
        no_announcement(a.events),
    ensures
        no_announcement(text_delta(a, delta).events),
        text_delta(a, delta).s.has_started == a.s.has_started,
{
    match nonempty_str(delta.at("content"@)) {
        Some(c) => {
            let mid = a.s.msg_id;
            let idx = a.s.next_output_index as int;
            let extra = seq![
                ev(EventKind::OutputItemAdded, message_added_body(idx, mid)),
                ev(EventKind::ContentPartAdded, part_added_body(idx, mid, text_part(Seq::empty()))),
            ];
            lemma_quiet_append(a.events, extra);
            let b = if !a.s.message_added {
                ChunkAcc {
                    s: StreamV {
                        next_output_index: (idx + 1) as usize,
                        msg_output_index: idx as usize,
                        message_added: true,
                        ..a.s
                    },
                    events: a.events + extra,
                    ..a
                }
            } else {
                a
            };
            lemma_quiet_push(
                b.events,
                ev(
                    EventKind::OutputTextDelta,
                    delta_body("response.output_text.delta"@, mid, b.s.msg_output_index as int, c),
                ),
            );
        },
        None => {},
    }
}

proof fn lemma_call_deltas_quiet(a: ChunkAcc, tcs: Seq<JsonV>, n: int, ids: Seq<Seq<char>>)
    requires
        no_announcement(a.events),
    ensures
        no_announcement(call_deltas(a, tcs, n, ids).events),
        call_deltas(a, tcs, n, ids).s.has_started == a.s.has_started,
    decreases n,
{
    if n > 0 {
        lemma_call_deltas_quiet(a, tcs, n - 1, ids);
        let b = call_deltas(a, tcs, n - 1, ids);
        let tc = tcs[n - 1];
        let index = delta_index(tc);
        let calls = grow(b.s.calls, index as int + 1);
        let acc0 = calls[index as int];
        let acc1 = AccV {
            index,
            id: match tc.at("id"@).as_str() {
                Some(id) => id,
                None => acc0.id,
            },
            ..acc0
        };
        let acc2 = if acc1.fc_id.len() == 0 {
            AccV { fc_id: ids[b.used as int], ..acc1 }
        } else {
            acc1
        };
        let added = !acc2.item_added && acc2.id.len() > 0;
        let idx = b.s.next_output_index as int;
        let acc3 = if added {
            AccV { output_index: idx as usize, item_added: true, ..acc2 }
        } else {
            acc2
        };
        lemma_quiet_push(b.events, ev(EventKind::OutputItemAdded, call_added_body(idx, acc2.fc_id, acc2.id)));
        let events = if added {
            b.events.push(ev(EventKind::OutputItemAdded, call_added_body(idx, acc2.fc_id, acc2.id)))
        } else {
            b.events
        };
        match tc.get("function"@) {
            Some(func) => {
                let acc_n = match func.at("name"@).as_str() {
                    Some(nm) => AccV { name: acc3.name + nm, ..acc3 },
                    None => acc3,
                };
                match func.at("arguments"@).as_str() {
                    Some(args) => {
                        lemma_quiet_push(
                            events,
                            ev(
                                EventKind::FunctionCallArgumentsDelta,
                                args_delta_body(acc_n.fc_id, acc_n.output_index as int, args),
                            ),
                        );
                    },
                    None => {},
                }
            },
            None => {},
        }
    }
}

proof fn lemma_choice_deltas_quiet(a: ChunkAcc, cs: Seq<JsonV>, n: int, ids: Seq<Seq<char>>)
    requires
        no_announcement(a.events),
    ensures
        no_announcement(choice_deltas(a, cs, n, ids).events),
        choice_deltas(a, cs, n, ids).s.has_started == a.s.has_started,
    decreases n,
{
    if n > 0 {
        lemma_choice_deltas_quiet(a, cs, n - 1, ids);
        let b = choice_deltas(a, cs, n - 1, ids);
        match cs[n - 1].get("delta"@) {
            Some(delta) => {
                lemma_reasoning_delta_quiet(b, delta);
                let r = reasoning_delta(b, delta);
                lemma_text_delta_quiet(r, delta);
                let t = text_delta(r, delta);
                match delta.at("tool_calls"@).as_array() {
                    Some(tcs) => lemma_call_deltas_quiet(t, tcs, tcs.len() as int, ids),
                    None => {},
                }
            },
            None => {},
        }
    }
}

/// The response is announced once. A chunk's events hold
/// `response.created` only as their first event, only while the stream is
/// not yet announced, and then the stream is announced; they hold
/// `response.in_progress` only right after it. An announced stream stays
/// announced, so over any run of chunks each of the two comes at most once.
pub proof fn law_announced_once(s: StreamV, chunk: JsonV, ids: Seq<Seq<char>>)
    ensures
        s.has_started ==> chunk_result(s, chunk, ids).0.has_started,
        match chunk_result(s, chunk, ids).1 {
            Some(evs) => forall|i: int|
                0 <= i < evs.len() ==> ((#[trigger] evs[i]).kind == EventKind::Created ==> i == 0
                    && !s.has_started && chunk_result(s, chunk, ids).0.has_started) && (evs[i].kind
                    == EventKind::InProgress ==> i == 1 && evs[0].kind == EventKind::Created),
            None => true,
        },
{
    let s1 = match chunk.at("created"@).as_u64() {
        Some(c) => StreamV { created: c, ..s },
        None => s,
    };
    if chunk.at("choices"@).as_array() != Some(Seq::<JsonV>::empty()) {
        let cs = chunk_choices(chunk);
        let a0 = ChunkAcc { s: s1, events: Seq::empty(), has_content: false, used: 0 };
        lemma_choice_deltas_quiet(a0, cs, cs.len() as int, ids);
        let a = choice_deltas(a0, cs, cs.len() as int, ids);
        if a.has_content && !a.s.has_started {
            let head = seq![
                ev(EventKind::Created, start_body("response.created"@, a.s)),
                ev(EventKind::InProgress, start_body("response.in_progress"@, a.s)),
            ];
            let evs = head + a.events;
            assert forall|i: int| 0 <= i < evs.len() implies ((#[trigger] evs[i]).kind
                == EventKind::Created ==> i == 0) && (evs[i].kind == EventKind::InProgress ==> i == 1) by {
                if i >= 2 {
                    assert(evs[i] == a.events[i - 2]);
                }
            }
        }
    }
}


// ─── Each item takes its own output index ───────────────────────────────

/// The output index an `output_item.added` event gives its item.
pub open spec fn added_index(e: EventV) -> Option<int> {
    if e.kind == EventKind::OutputItemAdded {
        match e.body.get("output_index"@) {
            Some(JsonV::Number(NumberV::PosInt(n))) => Some(n as int),
            _ => None,
        }
    } else {
        None
    }
}

/// The items the events add take indices from `lo` on and below `hi`,
/// each above the one added before it.
pub open spec fn indices_between(evs: Seq<EventV>, lo: int, hi: int) -> bool {
    &&& forall|i: int|
        0 <= i < evs.len() && (#[trigger] added_index(evs[i])) is Some ==> lo <= added_index(evs[i])->0
            < hi
    &&& forall|i: int, j: int|
        0 <= i < j < evs.len() && (#[trigger] added_index(evs[i])) is Some && (#[trigger] added_index(
            evs[j],
        )) is Some ==> added_index(evs[i])->0 < added_index(evs[j])->0
}

proof fn lemma_index_push(evs: Seq<EventV>, lo: int, hi: int, e: EventV, hi2: int)
    requires
        indices_between(evs, lo, hi),
        lo <= hi <= hi2,
        added_index(e) is Some ==> hi <= added_index(e)->0 < hi2,
    ensures
        indices_between(evs.push(e), lo, hi2),
{
    let t = evs.push(e);
    assert forall|i: int| 0 <= i < t.len() && (#[trigger] added_index(t[i])) is Some implies lo
        <= added_index(t[i])->0 < hi2 by {
        if i < evs.len() {
            assert(t[i] == evs[i]);
        } else {
            assert(t[i] == e);
        }
    }
    assert forall|i: int, j: int|
        0 <= i < j < t.len() && (#[trigger] added_index(t[i])) is Some && (#[trigger] added_index(
            t[j],
        )) is Some implies added_index(t[i])->0 < added_index(t[j])->0 by {
        assert(t[i] == evs[i]);
        if j < evs.len() {
            assert(t[j] == evs[j]);
        } else {
            assert(t[j] == e);
        }
    }
}

/// An `output_item.added` body gives the index it was made with.
proof fn lemma_added_body_index(idx: int, item: JsonV)
    requires
        0 <= idx <= u64::MAX,
    ensures
        added_index(ev(EventKind::OutputItemAdded, added_body(idx, item))) == Some(idx),
{
    reveal_strlit("output_index");
    reveal_strlit("item");
    assert("output_index"@.len() == 12 && "item"@.len() == 4);
    crate::json::lemma_get_built(
        seq![
            ("type"@, js("response.output_item.added"@)),
            ("output_index"@, jn(idx)),
            ("item"@, item),
        ],
        1,
    );
}

proof fn lemma_added_bodies_index(idx: int)
    requires
        0 <= idx <= u64::MAX,
    ensures
        forall|item: JsonV|
            added_index(ev(EventKind::OutputItemAdded, #[trigger] added_body(idx, item))) == Some(idx),
{
    assert forall|item: JsonV|
        added_index(ev(EventKind::OutputItemAdded, #[trigger] added_body(idx, item))) == Some(idx) by {
        lemma_added_body_index(idx, item);
    }
}

/// A stream in the middle of a chunk: valid, with the items the chunk
/// added so far at indices from `lo` on.
pub open spec fn acc_ok(a: ChunkAcc, lo: int) -> bool {
    &&& stream_wf(a.s)
    &&& lo <= a.s.next_output_index
    &&& indices_between(a.events, lo, a.s.next_output_index as int)
}

proof fn lemma_next_in_range(s: StreamV)
    requires
        stream_wf(s),
    ensures
        s.next_output_index + 1 <= usize::MAX,
        s.next_output_index + 1 <= u64::MAX,
{
    lemma_count_le(s.calls);
}

proof fn lemma_reasoning_delta_indices(a: ChunkAcc, delta: JsonV, lo: int)
    requires
        acc_ok(a, lo),
    ensures
        acc_ok(reasoning_delta(a, delta), lo),
{
    match nonempty_str(delta.at("reasoning_content"@)) {
        Some(r) => {
            let rid = a.s.reasoning_id;
            let idx = a.s.next_output_index as int;
            lemma_next_in_range(a.s);
            lemma_added_bodies_index(idx);
            let e1 = ev(EventKind::OutputItemAdded, reasoning_added_body(idx, rid));
            let e2 = ev(EventKind::ContentPartAdded, part_added_body(idx, rid, empty_reasoning_part()));
            let b = if !a.s.reasoning_added {
                assert(a.events + seq![e1, e2] =~= a.events.push(e1).push(e2));
                lemma_index_push(a.events, lo, idx, e1, idx + 1);
                lemma_index_push(a.events.push(e1), lo, idx + 1, e2, idx + 1);
                ChunkAcc {
                    s: StreamV { next_output_index: (idx + 1) as usize, reasoning_added: true, ..a.s },
                    events: a.events + seq![e1, e2],
                    ..a
                }
            } else {
                a
            };
            lemma_index_push(
                b.events,
                lo,
                b.s.next_output_index as int,
                ev(EventKind::ReasoningTextDelta, delta_body("response.reasoning_text.delta"@, rid, 0, r)),
                b.s.next_output_index as int,
            );
        },
        None => {},
    }
}

proof fn lemma_text_delta_indices(a: ChunkAcc, delta: JsonV, lo: int)
    requires
        acc_ok(a, lo),
    ensures
        acc_ok(text_delta(a, delta), lo),
{
    match nonempty_str(delta.at("content"@)) {
        Some(c) => {
            let mid = a.s.msg_id;
            let idx = a.s.next_output_index as int;
            lemma_next_in_range(a.s);
            lemma_added_bodies_index(idx);
            let e1 = ev(EventKind::OutputItemAdded, message_added_body(idx, mid));
            let e2 = ev(EventKind::ContentPartAdded, part_added_body(idx, mid, text_part(Seq::empty())));
            let b = if !a.s.message_added {
                assert(a.events + seq![e1, e2] =~= a.events.push(e1).push(e2));
                lemma_index_push(a.events, lo, idx, e1, idx + 1);
                lemma_index_push(a.events.push(e1), lo, idx + 1, e2, idx + 1);
                ChunkAcc {
                    s: StreamV {
                        next_output_index: (idx + 1) as usize,
                        msg_output_index: idx as usize,
                        message_added: true,
                        ..a.s
                    },
                    events: a.events + seq![e1, e2],
                    ..a
                }
            } else {
                a
            };
            lemma_index_push(
                b.events,
                lo,
                b.s.next_output_index as int,
                ev(
                    EventKind::OutputTextDelta,
                    delta_body("response.output_text.delta"@, mid, b.s.msg_output_index as int, c),
                ),
                b.s.next_output_index as int,
            );
        },
        None => {},
    }
}

proof fn lemma_call_delta_indices(a: ChunkAcc, tc: JsonV, ids: Seq<Seq<char>>, lo: int)
    requires
        acc_ok(a, lo),
        delta_index(tc) + 4 <= usize::MAX,
    ensures
        acc_ok(call_delta(a, tc, ids), lo),
{
    let index = delta_index(tc);
    let calls = grow(a.s.calls, index as int + 1);
    if a.s.calls.len() < index as int + 1 {
        lemma_count_append_empty(a.s.calls, (index as int + 1 - a.s.calls.len()) as nat);
    }
    assert(count_added(calls) == count_added(a.s.calls));
    assert(calls.len() <= 0x1_0000_0000);
    let acc0 = calls[index as int];
    let acc1 = AccV {
        index,
        id: match tc.at("id"@).as_str() {
            Some(id) => id,
            None => acc0.id,
        },
        ..acc0
    };
    let acc2 = if acc1.fc_id.len() == 0 {
        AccV { fc_id: ids[a.used as int], ..acc1 }
    } else {
        acc1
    };
    let added = !acc2.item_added && acc2.id.len() > 0;
    let idx = a.s.next_output_index as int;
    lemma_next_in_range(a.s);
    lemma_added_bodies_index(idx);
    let e_add = ev(EventKind::OutputItemAdded, call_added_body(idx, acc2.fc_id, acc2.id));
    let next: int = if added {
        idx + 1
    } else {
        idx
    };
    lemma_index_push(a.events, lo, idx, e_add, idx + 1);
    let events = if added {
        a.events.push(e_add)
    } else {
        a.events
    };
    assert(indices_between(events, lo, next));
    let r = call_delta(a, tc, ids);
    lemma_count_update(calls, index as int, r.s.calls[index as int]);
    assert(r.s.calls == calls.update(index as int, r.s.calls[index as int]));
    match tc.get("function"@) {
        Some(func) => {
            match func.at("arguments"@).as_str() {
                Some(args) => {
                    let last = r.events.last();
                    assert(last.kind == EventKind::FunctionCallArgumentsDelta ==> added_index(last) is None);
                    if r.events.len() > events.len() {
                        assert(r.events == events.push(last));
                        lemma_index_push(events, lo, next, last, next);
                    }
                },
                None => {},
            }
        },
        None => {},
    }
}

proof fn lemma_call_deltas_indices(a: ChunkAcc, tcs: Seq<JsonV>, n: int, ids: Seq<Seq<char>>, lo: int)
    requires
        acc_ok(a, lo),
        n <= tcs.len(),
        forall|k: int| 0 <= k < tcs.len() ==> #[trigger] delta_index(tcs[k]) + 4 <= usize::MAX,
    ensures
        acc_ok(call_deltas(a, tcs, n, ids), lo),
    decreases n,
{
    if n > 0 {
        lemma_call_deltas_indices(a, tcs, n - 1, ids, lo);
        lemma_call_delta_indices(call_deltas(a, tcs, n - 1, ids), tcs[n - 1], ids, lo);
    }
}

proof fn lemma_choice_deltas_indices(a: ChunkAcc, cs: Seq<JsonV>, n: int, ids: Seq<Seq<char>>, lo: int)
    requires
        acc_ok(a, lo),
        n <= cs.len(),
        indices_fit(cs),
    ensures
        acc_ok(choice_deltas(a, cs, n, ids), lo),
    decreases n,
{
    if n > 0 {
        lemma_choice_deltas_indices(a, cs, n - 1, ids, lo);
        let b = choice_deltas(a, cs, n - 1, ids);
        assert(choice_indices_fit(cs[n - 1]));
        match cs[n - 1].get("delta"@) {
            Some(delta) => {
                lemma_reasoning_delta_indices(b, delta, lo);
                let r = reasoning_delta(b, delta);
                lemma_text_delta_indices(r, delta, lo);
                let t = text_delta(r, delta);
                match delta.at("tool_calls"@).as_array() {
                    Some(tcs) => lemma_call_deltas_indices(t, tcs, tcs.len() as int, ids, lo),
                    None => {},
                }
            },
            None => {},
        }
    }
}

/// Each item a stream adds takes its own output index. The items a chunk
/// adds take indices upwards from the stream's next index, each above the
/// one added before it, and below the next index the chunk leaves; the
/// next index never goes down, so over a run of chunks no index is given
/// twice.
pub proof fn law_output_indices(s: StreamV, chunk: JsonV, ids: Seq<Seq<char>>)
    requires
        stream_wf(s),
        indices_fit(chunk_choices(chunk)),
    ensures
        s.next_output_index <= chunk_result(s, chunk, ids).0.next_output_index,
        match chunk_result(s, chunk, ids).1 {
            Some(evs) => indices_between(
                evs,
                s.next_output_index as int,
                chunk_result(s, chunk, ids).0.next_output_index as int,
            ),
            None => true,
        },
{
    let s1 = match chunk.at("created"@).as_u64() {
        Some(c) => StreamV { created: c, ..s },
        None => s,
    };
    if chunk.at("choices"@).as_array() != Some(Seq::<JsonV>::empty()) {
        let lo = s.next_output_index as int;
        let cs = chunk_choices(chunk);
        let a0 = ChunkAcc { s: s1, events: Seq::empty(), has_content: false, used: 0 };
        lemma_choice_deltas_indices(a0, cs, cs.len() as int, ids, lo);
        let a = choice_deltas(a0, cs, cs.len() as int, ids);
        let hi = a.s.next_output_index as int;
        if a.has_content && !a.s.has_started {
            let head = seq![
                ev(EventKind::Created, start_body("response.created"@, a.s)),
                ev(EventKind::InProgress, start_body("response.in_progress"@, a.s)),
            ];
            let evs = head + a.events;
            assert forall|i: int| 0 <= i < evs.len() && (#[trigger] added_index(evs[i])) is Some implies lo
                <= added_index(evs[i])->0 < hi by {
                assert(i >= 2);
                assert(evs[i] == a.events[i - 2]);
            }
            assert forall|i: int, j: int|
                0 <= i < j < evs.len() && (#[trigger] added_index(evs[i])) is Some && (
                #[trigger] added_index(evs[j])) is Some implies added_index(evs[i])->0 < added_index(
                evs[j],
            )->0 by {
                assert(i >= 2);
                assert(evs[i] == a.events[i - 2]);
                assert(evs[j] == a.events[j - 2]);
            }
        }
    }
}


// ─── What a chunk carries ───────────────────────────────────────────────

/// The text a choice's delta carries under `key` (empty where it carries
/// none).
pub open spec fn delta_text(c: JsonV, key: Seq<char>) -> Seq<char> {
    match c.get("delta"@) {
        Some(d) => match nonempty_str(d.at(key)) {
            Some(t) => t,
            None => Seq::empty(),
        },
        None => Seq::empty(),
    }
}

/// The texts of the first `n` choices under `key`, one after another.
pub open spec fn choices_text(cs: Seq<JsonV>, n: int, key: Seq<char>) -> Seq<char>
    decreases n,
{
    if n <= 0 {
        Seq::empty()
    } else {
        choices_text(cs, n - 1, key) + delta_text(cs[n - 1], key)
    }
}

/// A choice whose delta has content, reasoning or tool calls.
pub open spec fn choice_has_content(c: JsonV) -> bool {
    match c.get("delta"@) {
        Some(d) => nonempty_str(d.at("content"@)) is Some || nonempty_str(d.at("reasoning_content"@))
            is Some || (d.at("tool_calls"@).as_array() matches Some(t) && t.len() > 0),
        None => false,
    }
}

/// One of the first `n` choices has content, reasoning or tool calls.
pub open spec fn some_content(cs: Seq<JsonV>, n: int) -> bool
    decreases n,
{
    if n <= 0 {
        false
    } else {
        some_content(cs, n - 1) || choice_has_content(cs[n - 1])
    }
}

proof fn lemma_call_deltas_carry(a: ChunkAcc, tcs: Seq<JsonV>, n: int, ids: Seq<Seq<char>>)
    ensures
        call_deltas(a, tcs, n, ids).has_content == (a.has_content || n > 0),
        call_deltas(a, tcs, n, ids).s.text == a.s.text,
        call_deltas(a, tcs, n, ids).s.reasoning == a.s.reasoning,
    decreases n,
{
    if n > 0 {
        lemma_call_deltas_carry(a, tcs, n - 1, ids);
    }
}

proof fn lemma_choice_deltas_carry(a: ChunkAcc, cs: Seq<JsonV>, n: int, ids: Seq<Seq<char>>)
    requires
        0 <= n,
    ensures
        choice_deltas(a, cs, n, ids).has_content == (a.has_content || some_content(cs, n)),
        choice_deltas(a, cs, n, ids).s.text == a.s.text + choices_text(cs, n, "content"@),
        choice_deltas(a, cs, n, ids).s.reasoning == a.s.reasoning + choices_text(
            cs,
            n,
            "reasoning_content"@,
        ),
    decreases n,
{
    if n == 0 {
        assert(a.s.text + Seq::<char>::empty() =~= a.s.text);
        assert(a.s.reasoning + Seq::<char>::empty() =~= a.s.reasoning);
    } else {
        lemma_choice_deltas_carry(a, cs, n - 1, ids);
        let b = choice_deltas(a, cs, n - 1, ids);
        let c = cs[n - 1];
        match c.get("delta"@) {
            Some(delta) => {
                let r = reasoning_delta(b, delta);
                let t = text_delta(r, delta);
                match delta.at("tool_calls"@).as_array() {
                    Some(tcs) => lemma_call_deltas_carry(t, tcs, tcs.len() as int, ids),
                    None => {},
                }
                assert(a.s.text + choices_text(cs, n, "content"@) =~= a.s.text + choices_text(
                    cs,
                    n - 1,
                    "content"@,
                ) + delta_text(c, "content"@));
                assert(a.s.reasoning + choices_text(cs, n, "reasoning_content"@) =~= a.s.reasoning
                    + choices_text(cs, n - 1, "reasoning_content"@) + delta_text(
                    c,
                    "reasoning_content"@,
                ));
            },
            None => {
                assert(a.s.text + choices_text(cs, n, "content"@) =~= a.s.text + choices_text(
                    cs,
                    n - 1,
                    "content"@,
                ) + Seq::<char>::empty());
                assert(a.s.reasoning + choices_text(cs, n, "reasoning_content"@) =~= a.s.reasoning
                    + choices_text(cs, n - 1, "reasoning_content"@) + Seq::<char>::empty());
            },
        }
    }
}

/// A chunk adds to the answer's text, and to its reasoning, what its
/// choices' deltas carry, in choice order.
pub proof fn law_text_accumulates(s: StreamV, chunk: JsonV, ids: Seq<Seq<char>>)
    ensures
        chunk_result(s, chunk, ids).0.text == s.text + choices_text(
            chunk_choices(chunk),
            chunk_choices(chunk).len() as int,
            "content"@,
        ),
        chunk_result(s, chunk, ids).0.reasoning == s.reasoning + choices_text(
            chunk_choices(chunk),
            chunk_choices(chunk).len() as int,
            "reasoning_content"@,
        ),
{
    let s1 = match chunk.at("created"@).as_u64() {
        Some(c) => StreamV { created: c, ..s },
        None => s,
    };
    let cs = chunk_choices(chunk);
    let a0 = ChunkAcc { s: s1, events: Seq::empty(), has_content: false, used: 0 };
    lemma_choice_deltas_carry(a0, cs, cs.len() as int, ids);
    if chunk.at("choices"@).as_array() == Some(Seq::<JsonV>::empty()) {
        assert(cs.len() == 0);
        assert(s.text + choices_text(cs, 0, "content"@) =~= s.text);
        assert(s.reasoning + choices_text(cs, 0, "reasoning_content"@) =~= s.reasoning);
    }
}

/// A chunk whose choices are an empty array gives no events; it keeps the
/// usage it carries, and its creation time, and leaves the rest of the
/// stream as it was.
pub proof fn law_usage_only_chunk(s: StreamV, chunk: JsonV, ids: Seq<Seq<char>>)
    requires
        chunk.at("choices"@) == JsonV::Array(Seq::empty()),
    ensures
        ({
            let r = chunk_result(s, chunk, ids);
            &&& r.1 is None
            &&& r.0.usage == match chunk.get("usage"@) {
                Some(u) => Some(u),
                None => s.usage,
            }
            &&& r.0.created == match chunk.at("created"@).as_u64() {
                Some(c) => c,
                None => s.created,
            }
            &&& r.0 == StreamV { usage: r.0.usage, created: r.0.created, ..s }
        }),
{
    assert(chunk.at("choices"@).as_array() == Some(Seq::<JsonV>::empty()));
}

/// A chunk that carries content, reasoning or tool calls to a stream not
/// yet announced announces it: its events begin with `response.created`
/// and `response.in_progress`, and the stream is announced after it. A
/// chunk that carries none of these leaves the announcement as it was.
pub proof fn law_content_announces(s: StreamV, chunk: JsonV, ids: Seq<Seq<char>>)
    ensures
        ({
            let cs = chunk_choices(chunk);
            let r = chunk_result(s, chunk, ids);
            &&& (!s.has_started && some_content(cs, cs.len() as int)) ==> (r.0.has_started && (r.1 matches Some(
                evs,
            ) && evs.len() >= 2 && evs[0].kind == EventKind::Created && evs[1].kind
                == EventKind::InProgress))
            &&& !some_content(cs, cs.len() as int) ==> r.0.has_started == s.has_started
        }),
{
    let s1 = match chunk.at("created"@).as_u64() {
        Some(c) => StreamV { created: c, ..s },
        None => s,
    };
    let cs = chunk_choices(chunk);
    let a0 = ChunkAcc { s: s1, events: Seq::empty(), has_content: false, used: 0 };
    lemma_choice_deltas_carry(a0, cs, cs.len() as int, ids);
    lemma_choice_deltas_quiet(a0, cs, cs.len() as int, ids);
}


// ─── What closing a stream gives ────────────────────────────────────────

/// Events without `response.completed`.
pub open spec fn no_completed(evs: Seq<EventV>) -> bool {
    forall|i: int| 0 <= i < evs.len() ==> (#[trigger] evs[i]).kind != EventKind::Completed
}

/// The calls among the first `n` that have a call id, in order.
pub open spec fn named_calls(calls: Seq<AccV>, n: int) -> Seq<AccV>
    decreases n,
{
    if n <= 0 {
        Seq::empty()
    } else if calls[n - 1].id.len() > 0 {
        named_calls(calls, n - 1).push(calls[n - 1])
    } else {
        named_calls(calls, n - 1)
    }
}

/// `x` is the `function_call` item of call `a`, under some item id.
pub open spec fn is_call_item_of(x: JsonV, a: AccV) -> bool {
    exists|fc: Seq<char>| x == call_item(fc, a)
}

/// The items `items` list, in order, the `function_call` items of `calls`.
pub open spec fn call_items_of(items: Seq<JsonV>, calls: Seq<AccV>) -> bool {
    &&& items.len() == calls.len()
    &&& forall|i: int| 0 <= i < calls.len() ==> is_call_item_of(#[trigger] items[i], calls[i])
}

proof fn lemma_close_calls(d: DoneAcc, calls: Seq<AccV>, n: int, ids: Seq<Seq<char>>)
    requires
        0 <= n <= calls.len(),
        no_completed(d.events),
    ensures
        ({
            let r = close_calls(d, calls, n, ids);
            &&& no_completed(r.events)
            &&& r.items.len() == d.items.len() + named_calls(calls, n).len()
            &&& r.items.subrange(0, d.items.len() as int) == d.items
            &&& call_items_of(r.items.subrange(d.items.len() as int, r.items.len() as int), named_calls(calls, n))
        }),
    decreases n,
{
    let r = close_calls(d, calls, n, ids);
    if n == 0 {
        assert(r.items.subrange(0, d.items.len() as int) =~= d.items);
    } else {
        lemma_close_calls(d, calls, n - 1, ids);
        let b = close_calls(d, calls, n - 1, ids);
        let a = calls[n - 1];
        let k = d.items.len() as int;
        let old_part = b.items.subrange(k, b.items.len() as int);
        let nc = named_calls(calls, n - 1);
        if a.id.len() > 0 {
            let fc_id = if a.fc_id.len() == 0 {
                ids[b.used as int]
            } else {
                a.fc_id
            };
            assert(r.items == b.items.push(call_item(fc_id, a)));
            let events2 = b.events + seq![
                ev(EventKind::FunctionCallArgumentsDone, args_done_body(fc_id, a)),
                ev(EventKind::OutputItemDone, item_done_body(a.output_index as int, call_item(fc_id, a))),
            ];
            assert forall|i: int| 0 <= i < events2.len() implies (#[trigger] events2[i]).kind
                != EventKind::Completed by {
                if i < b.events.len() {
                    assert(events2[i] == b.events[i]);
                }
            }
            assert(r.items.subrange(0, k) =~= b.items.subrange(0, k));
            let part = r.items.subrange(k, r.items.len() as int);
            assert(part =~= old_part.push(call_item(fc_id, a)));
            assert forall|i: int| 0 <= i < named_calls(calls, n).len() implies is_call_item_of(
                #[trigger] part[i],
                named_calls(calls, n)[i],
            ) by {
                if i < nc.len() {
                    assert(part[i] == old_part[i]);
                    assert(is_call_item_of(old_part[i], nc[i]));
                } else {
                    assert(part[i] == call_item(fc_id, a));
                }
            }
        } else {
            assert(r == b);
        }
    }
}

/// What closing a stream gives. The last event, and only it, is
/// `response.completed`. Its response has the stream's id and model,
/// status `completed`, the stream's usage where it has one and no usage
/// otherwise, and as output: the reasoning item (with the reasoning
/// text) where reasoning was added; then the `function_call` item of
/// each call that has a call id, in order; then the message item (with
/// the answer's text) where a message was added, there is text, or there
/// are no calls.
pub proof fn law_completion(s: StreamV, ids: Seq<Seq<char>>)
    ensures
        ({
            let evs = completion_events(s, ids);
            let v = evs.last().body;
            &&& evs.len() >= 1
            &&& evs.last().kind == EventKind::Completed
            &&& no_completed(evs.drop_last())
            &&& v.get("type"@) == Some(js("response.completed"@))
            &&& v.get("response"@) matches Some(resp) && {
                &&& resp.get("id"@) == Some(js(s.response_id))
                &&& resp.get("model"@) == Some(js(s.model))
                &&& resp.get("status"@) == Some(js("completed"@))
                &&& resp.get("usage"@) == s.usage
                &&& resp.get("output"@) matches Some(JsonV::Array(out)) && exists|calls_part: Seq<JsonV>|
                    {
                        let pre = if s.reasoning_added {
                            seq![reasoning_item(s)]
                        } else {
                            Seq::empty()
                        };
                        let post = if s.message_added || s.text.len() > 0 || s.calls.len() == 0 {
                            seq![message_item(s)]
                        } else {
                            Seq::empty()
                        };
                        &&& out == pre + calls_part + post
                        &&& #[trigger] call_items_of(calls_part, named_calls(s.calls, s.calls.len() as int))
                    }
            }
        }),
{
    let r0 = if s.reasoning_added {
        DoneAcc {
            events: seq![
                ev(EventKind::ReasoningTextDone, text_done_body("response.reasoning_text.done"@, s.reasoning_id, 0, s.reasoning)),
                ev(EventKind::ContentPartDone, part_done_body(s.reasoning_id, 0, reasoning_text_part(s.reasoning))),
                ev(EventKind::OutputItemDone, item_done_body(0, reasoning_item(s))),
            ],
            items: seq![reasoning_item(s)],
            used: 0,
        }
    } else {
        DoneAcc { events: Seq::empty(), items: Seq::empty(), used: 0 }
    };
    assert(no_completed(r0.events));
    lemma_close_calls(r0, s.calls, s.calls.len() as int, ids);
    let c = close_calls(r0, s.calls, s.calls.len() as int, ids);
    let tail = seq![
        ev(EventKind::OutputTextDone, text_done_body("response.output_text.done"@, s.msg_id, s.msg_output_index as int, s.text)),
        ev(EventKind::ContentPartDone, part_done_body(s.msg_id, s.msg_output_index as int, text_part(s.text))),
        ev(EventKind::OutputItemDone, item_done_body(s.msg_output_index as int, message_item(s))),
    ];
    assert forall|i: int| 0 <= i < (c.events + tail).len() implies (#[trigger] (c.events + tail)[i]).kind
        != EventKind::Completed by {
        if i < c.events.len() {
            assert((c.events + tail)[i] == c.events[i]);
        } else {
            assert((c.events + tail)[i] == tail[i - c.events.len()]);
        }
    }
    let m = if s.message_added {
        DoneAcc { events: c.events + tail, items: c.items.push(message_item(s)), ..c }
    } else if s.text.len() > 0 || s.calls.len() == 0 {
        DoneAcc { items: c.items.push(message_item(s)), ..c }
    } else {
        c
    };
    let evs = completion_events(s, ids);
    assert(evs.drop_last() =~= m.events);
    let k = r0.items.len() as int;
    let calls_part = c.items.subrange(k, c.items.len() as int);
    let pre = r0.items;
    let post = if s.message_added || s.text.len() > 0 || s.calls.len() == 0 {
        seq![message_item(s)]
    } else {
        Seq::empty()
    };
    assert(c.items =~= pre + calls_part);
    assert(m.items =~= pre + calls_part + post);
    // The bodies' members.
    reveal_strlit("type");
    reveal_strlit("response");
    reveal_strlit("id");
    reveal_strlit("object");
    reveal_strlit("model");
    reveal_strlit("status");
    reveal_strlit("output");
    reveal_strlit("usage");
    assert("type"@.len() == 4 && "response"@.len() == 8 && "id"@.len() == 2);
    assert("object"@.len() == 6 && "model"@.len() == 5 && "status"@.len() == 6);
    assert("output"@.len() == 6 && "usage"@.len() == 5);
    assert("model"@[0] != "usage"@[0]);
    assert("status"@[0] != "output"@[0]);
    let body_pairs = seq![("type"@, js("response.completed"@)), ("response"@, completed_response(s, m.items))];
    crate::json::lemma_get_built(body_pairs, 0);
    crate::json::lemma_get_built(body_pairs, 1);
    let base = seq![
        ("id"@, js(s.response_id)),
        ("object"@, js("response"@)),
        ("model"@, js(s.model)),
        ("status"@, js("completed"@)),
        ("output"@, JsonV::Array(m.items)),
    ];
    match s.usage {
        Some(u) => {
            let p = base.push(("usage"@, u));
            crate::json::lemma_get_built(p, 0);
            crate::json::lemma_get_built(p, 2);
            crate::json::lemma_get_built(p, 3);
            crate::json::lemma_get_built(p, 4);
            crate::json::lemma_get_built(p, 5);
        },
        None => {
            crate::json::lemma_get_built(base, 0);
            crate::json::lemma_get_built(base, 2);
            crate::json::lemma_get_built(base, 3);
            crate::json::lemma_get_built(base, 4);
            crate::json::lemma_get_absent(base, "usage"@);
        },
    }
    assert(call_items_of(calls_part, named_calls(s.calls, s.calls.len() as int)));
}

// ─── Arguments arrive as fragments ──────────────────────────────────────

/// The fragment of arguments a tool call delta carries, if it carries one.
pub open spec fn arguments_fragment(tc: JsonV) -> Option<Seq<char>> {
    match tc.get("function"@) {
        Some(f) => f.at("arguments"@).as_str(),
        None => None,
    }
}

/// The `delta` of each `function_call_arguments.delta` event, in order.
pub open spec fn argument_deltas(evs: Seq<EventV>) -> Seq<Seq<char>>
    decreases evs.len(),
{
    if evs.len() == 0 {
        Seq::empty()
    } else {
        let rest = argument_deltas(evs.drop_last());
        let e = evs.last();
        if e.kind == EventKind::FunctionCallArgumentsDelta {
            match e.body.get("delta"@) {
                Some(JsonV::Str(d)) => rest.push(d),
                _ => rest,
            }
        } else {
            rest
        }
    }
}

/// The `item_id` of each `function_call_arguments.delta` event, in order.
pub open spec fn argument_delta_items(evs: Seq<EventV>) -> Seq<Seq<char>>
    decreases evs.len(),
{
    if evs.len() == 0 {
        Seq::empty()
    } else {
        let rest = argument_delta_items(evs.drop_last());
        let e = evs.last();
        if e.kind == EventKind::FunctionCallArgumentsDelta {
            match e.body.get("item_id"@) {
                Some(JsonV::Str(d)) => rest.push(d),
                _ => rest,
            }
        } else {
            rest
        }
    }
}

proof fn lemma_argument_deltas_push(evs: Seq<EventV>, e: EventV)
    ensures
        e.kind != EventKind::FunctionCallArgumentsDelta ==> argument_deltas(evs.push(e)) == argument_deltas(evs)
            && argument_delta_items(evs.push(e)) == argument_delta_items(evs),
        e.kind == EventKind::FunctionCallArgumentsDelta ==> argument_deltas(evs.push(e)) == match e.body.get(
            "delta"@,
        ) {
            Some(JsonV::Str(d)) => argument_deltas(evs).push(d),
            _ => argument_deltas(evs),
        },
        e.kind == EventKind::FunctionCallArgumentsDelta ==> argument_delta_items(evs.push(e)) == match e.body.get(
            "item_id"@,
        ) {
            Some(JsonV::Str(d)) => argument_delta_items(evs).push(d),
            _ => argument_delta_items(evs),
        },
{
    assert(evs.push(e).drop_last() =~= evs);
}

proof fn lemma_args_delta_body_reads(fc_id: Seq<char>, idx: int, delta: Seq<char>)
    ensures
        args_delta_body(fc_id, idx, delta).get("delta"@) == Some(JsonV::Str(delta)),
        args_delta_body(fc_id, idx, delta).get("item_id"@) == Some(JsonV::Str(fc_id)),
        args_delta_body(fc_id, idx, delta).get("output_index"@) == Some(jn(idx)),
{
    reveal_strlit("type");
    reveal_strlit("item_id");
    reveal_strlit("output_index");
    reveal_strlit("delta");
    assert("type"@.len() == 4 && "item_id"@.len() == 7 && "output_index"@.len() == 12 && "delta"@.len() == 5);
    let p = seq![
        ("type"@, js("response.function_call_arguments.delta"@)),
        ("item_id"@, js(fc_id)),
        ("output_index"@, jn(idx)),
        ("delta"@, js(delta)),
    ];
    crate::json::lemma_get_built(p, 3);
    crate::json::lemma_get_built(p, 2);
    crate::json::lemma_get_built(p, 1);
}

/// A tool call delta's arguments reach the client as they came: the call's
/// arguments grow by exactly the fragment the delta carries, and the one
/// `function_call_arguments.delta` event it gives (once the call has been
/// announced) carries that fragment alone, naming the call's item and its
/// output index. So the
/// deltas a client joins, from the call's announcement on, spell out the
/// call's arguments. Events already given stay as they were.
pub proof fn law_argument_fragments(a: ChunkAcc, tc: JsonV, ids: Seq<Seq<char>>)
    ensures
        ({
            let b = call_delta(a, tc, ids);
            let i = delta_index(tc) as int;
            let before = grow(a.s.calls, i + 1)[i];
            let given = match arguments_fragment(tc) {
                Some(f) => if b.s.calls[i].item_added {
                    seq![f]
                } else {
                    Seq::empty()
                },
                None => Seq::empty(),
            };
            &&& a.events.len() <= b.events.len()
            &&& b.events.subrange(0, a.events.len() as int) == a.events
            &&& b.s.calls[i].arguments == before.arguments + match arguments_fragment(tc) {
                Some(f) => f,
                None => Seq::empty(),
            }
            &&& argument_deltas(b.events) == argument_deltas(a.events) + given
            &&& argument_delta_items(b.events) == argument_delta_items(a.events) + Seq::new(
                given.len(),
                |k: int| b.s.calls[i].fc_id,
            )
            &&& given.len() == 1 ==> b.events.last().body.get("output_index"@) == Some(
                jn(b.s.calls[i].output_index as int),
            )
        }),
{
    let b = call_delta(a, tc, ids);
    let index = delta_index(tc);
    let i = index as int;
    let calls = grow(a.s.calls, i + 1);
    let acc0 = calls[i];
    let acc1 = AccV {
        index,
        id: match tc.at("id"@).as_str() {
            Some(id) => id,
            None => acc0.id,
        },
        ..acc0
    };
    let acc2 = if acc1.fc_id.len() == 0 {
        AccV { fc_id: ids[a.used as int], ..acc1 }
    } else {
        acc1
    };
    let added = !acc2.item_added && acc2.id.len() > 0;
    let idx = a.s.next_output_index as int;
    let acc3 = if added {
        AccV { output_index: idx as usize, item_added: true, ..acc2 }
    } else {
        acc2
    };
    let e_add = ev(EventKind::OutputItemAdded, call_added_body(idx, acc2.fc_id, acc2.id));
    let events = if added {
        a.events.push(e_add)
    } else {
        a.events
    };
    lemma_argument_deltas_push(a.events, e_add);
    assert(argument_deltas(events) == argument_deltas(a.events));
    assert(argument_delta_items(events) == argument_delta_items(a.events));
    assert(events.subrange(0, a.events.len() as int) =~= a.events);
    assert(calls.len() > i);
    match tc.get("function"@) {
        Some(func) => {
            let acc_n = match func.at("name"@).as_str() {
                Some(n) => AccV { name: acc3.name + n, ..acc3 },
                None => acc3,
            };
            match func.at("arguments"@).as_str() {
                Some(args) => {
                    assert(b.s.calls[i] == AccV { arguments: acc_n.arguments + args, ..acc_n });
                    if acc_n.item_added {
                        let e = ev(
                            EventKind::FunctionCallArgumentsDelta,
                            args_delta_body(acc_n.fc_id, acc_n.output_index as int, args),
                        );
                        lemma_args_delta_body_reads(acc_n.fc_id, acc_n.output_index as int, args);
                        lemma_argument_deltas_push(events, e);
                        assert(b.events == events.push(e));
                        assert(events.push(e).subrange(0, a.events.len() as int) =~= a.events);
                        assert(Seq::new(1, |k: int| b.s.calls[i].fc_id) =~= seq![acc_n.fc_id]);
                    } else {
                        assert(Seq::new(0, |k: int| b.s.calls[i].fc_id) =~= Seq::<Seq<char>>::empty());
                    }
                },
                None => {
                    assert(b.s.calls[i].arguments =~= acc_n.arguments + Seq::<char>::empty());
                    assert(Seq::new(0, |k: int| b.s.calls[i].fc_id) =~= Seq::<Seq<char>>::empty());
                },
            }
        },
        None => {
            assert(b.s.calls[i].arguments =~= acc3.arguments + Seq::<char>::empty());
            assert(Seq::new(0, |k: int| b.s.calls[i].fc_id) =~= Seq::<Seq<char>>::empty());
        },
    }
}

/// The arguments the `function_call_arguments.delta` events naming item
/// `id` carry, joined in order.
pub open spec fn deltas_naming(evs: Seq<EventV>, id: Seq<char>) -> Seq<char>
    decreases evs.len(),
{
    if evs.len() == 0 {
        Seq::empty()
    } else {
        let e = evs.last();
        deltas_naming(evs.drop_last(), id) + if e.kind == EventKind::FunctionCallArgumentsDelta && e.body.get(
            "item_id"@,
        ) == Some(JsonV::Str(id)) {
            match e.body.get("delta"@) {
                Some(JsonV::Str(d)) => d,
                _ => Seq::empty(),
            }
        } else {
            Seq::empty()
        }
    }
}

proof fn lemma_naming_push(evs: Seq<EventV>, e: EventV, id: Seq<char>)
    ensures
        deltas_naming(evs.push(e), id) == deltas_naming(evs, id) + if e.kind
            == EventKind::FunctionCallArgumentsDelta && e.body.get("item_id"@) == Some(JsonV::Str(id)) {
            match e.body.get("delta"@) {
                Some(JsonV::Str(d)) => d,
                _ => Seq::empty(),
            }
        } else {
            Seq::empty()
        },
{
    assert(evs.push(e).drop_last() =~= evs);
}

/// Events that are no arguments deltas add nothing, after others.
proof fn lemma_naming_quiet_after(evs: Seq<EventV>, more: Seq<EventV>, id: Seq<char>)
    requires
        forall|k: int| 0 <= k < more.len() ==> (#[trigger] more[k]).kind != EventKind::FunctionCallArgumentsDelta,
    ensures
        deltas_naming(evs + more, id) == deltas_naming(evs, id),
    decreases more.len(),
{
    if more.len() == 0 {
        assert(evs + more =~= evs);
    } else {
        let m = more.drop_last();
        assert forall|k: int| 0 <= k < m.len() implies (#[trigger] m[k]).kind
            != EventKind::FunctionCallArgumentsDelta by {
            assert(m[k] == more[k]);
        }
        lemma_naming_quiet_after(evs, m, id);
        assert((evs + more).drop_last() =~= evs + m);
        assert((evs + more).last() == more[more.len() - 1]);
        assert(deltas_naming(evs + more, id) =~= deltas_naming(evs + m, id) + Seq::<char>::empty());
    }
}

/// Events that are no arguments deltas add nothing, before others.
proof fn lemma_naming_quiet_before(head: Seq<EventV>, evs: Seq<EventV>, id: Seq<char>)
    requires
        forall|k: int| 0 <= k < head.len() ==> (#[trigger] head[k]).kind != EventKind::FunctionCallArgumentsDelta,
    ensures
        deltas_naming(head + evs, id) == deltas_naming(evs, id),
    decreases evs.len(),
{
    if evs.len() == 0 {
        lemma_naming_quiet_after(Seq::empty(), head, id);
        assert(Seq::<EventV>::empty() + head =~= head);
        assert(head + evs =~= head);
    } else {
        lemma_naming_quiet_before(head, evs.drop_last(), id);
        assert((head + evs).drop_last() =~= head + evs.drop_last());
        assert((head + evs).last() == evs.last());
    }
}

/// Call `c` of a chunk in progress: still announced under item `fid`, its
/// arguments are `base` followed by the deltas naming `fid` so far, and no
/// other call has that item.
pub open spec fn call_tracked(a: ChunkAcc, c: int, base: Seq<char>, fid: Seq<char>) -> bool {
    &&& 0 <= c < a.s.calls.len()
    &&& a.s.calls[c].item_added
    &&& a.s.calls[c].fc_id == fid
    &&& a.s.calls[c].arguments == base + deltas_naming(a.events, fid)
    &&& forall|j: int| 0 <= j < a.s.calls.len() && j != c ==> (#[trigger] a.s.calls[j]).fc_id != fid
}

proof fn lemma_call_delta_tracked(
    a: ChunkAcc,
    tc: JsonV,
    ids: Seq<Seq<char>>,
    c: int,
    base: Seq<char>,
    fid: Seq<char>,
)
    requires
        call_tracked(a, c, base, fid),
        fid.len() > 0,
        a.used < ids.len(),
        forall|k: int| 0 <= k < ids.len() ==> #[trigger] ids[k] != fid,
    ensures
        call_tracked(call_delta(a, tc, ids), c, base, fid),
        call_delta(a, tc, ids).used <= a.used + 1,
{
    let b = call_delta(a, tc, ids);
    let index = delta_index(tc);
    let i = index as int;
    let calls = grow(a.s.calls, i + 1);
    assert(calls.len() > i && calls.len() >= a.s.calls.len());
    assert(calls[c] == a.s.calls[c]);
    assert forall|j: int| 0 <= j < calls.len() && j != c implies (#[trigger] calls[j]).fc_id != fid by {
        if j >= a.s.calls.len() {
            assert(calls[j] == empty_acc());
        } else {
            assert(calls[j] == a.s.calls[j]);
        }
    }
    let acc0 = calls[i];
    let acc1 = AccV {
        index,
        id: match tc.at("id"@).as_str() {
            Some(id) => id,
            None => acc0.id,
        },
        ..acc0
    };
    let acc2 = if acc1.fc_id.len() == 0 {
        AccV { fc_id: ids[a.used as int], ..acc1 }
    } else {
        acc1
    };
    if i == c {
        assert(acc2.fc_id == fid);
    } else {
        assert(acc2.fc_id != fid);
    }
    let added = !acc2.item_added && acc2.id.len() > 0;
    let idx = a.s.next_output_index as int;
    let e_add = ev(EventKind::OutputItemAdded, call_added_body(idx, acc2.fc_id, acc2.id));
    let events = if added {
        a.events.push(e_add)
    } else {
        a.events
    };
    lemma_naming_push(a.events, e_add, fid);
    assert(deltas_naming(events, fid) == deltas_naming(a.events, fid));
    let acc3 = if added {
        AccV { output_index: idx as usize, item_added: true, ..acc2 }
    } else {
        acc2
    };
    match tc.get("function"@) {
        Some(func) => {
            let acc_n = match func.at("name"@).as_str() {
                Some(n) => AccV { name: acc3.name + n, ..acc3 },
                None => acc3,
            };
            match func.at("arguments"@).as_str() {
                Some(args) => {
                    if acc_n.item_added {
                        let e = ev(
                            EventKind::FunctionCallArgumentsDelta,
                            args_delta_body(acc_n.fc_id, acc_n.output_index as int, args),
                        );
                        lemma_args_delta_body_reads(acc_n.fc_id, acc_n.output_index as int, args);
                        lemma_naming_push(events, e, fid);
                        assert(b.events == events.push(e));
                        if i == c {
                            assert(deltas_naming(b.events, fid) == deltas_naming(a.events, fid) + args);
                            assert(b.s.calls[c].arguments =~= base + deltas_naming(b.events, fid));
                        } else {
                            assert(deltas_naming(b.events, fid) =~= deltas_naming(a.events, fid) + Seq::<
                                char,
                            >::empty());
                        }
                    } else {
                        assert(i != c);
                    }
                },
                None => {
                    assert(i != c ==> b.s.calls[c] == a.s.calls[c]);
                },
            }
        },
        None => {},
    }
    assert forall|j: int| 0 <= j < b.s.calls.len() && j != c implies (#[trigger] b.s.calls[j]).fc_id != fid by {
        if j != i {
            assert(b.s.calls[j] == calls[j]);
        }
    }
}

proof fn lemma_call_deltas_tracked(
    a: ChunkAcc,
    tcs: Seq<JsonV>,
    n: int,
    ids: Seq<Seq<char>>,
    c: int,
    base: Seq<char>,
    fid: Seq<char>,
)
    requires
        call_tracked(a, c, base, fid),
        fid.len() > 0,
        0 <= n,
        a.used + n <= ids.len(),
        forall|k: int| 0 <= k < ids.len() ==> #[trigger] ids[k] != fid,
    ensures
        call_tracked(call_deltas(a, tcs, n, ids), c, base, fid),
        call_deltas(a, tcs, n, ids).used <= a.used + n,
    decreases n,
{
    if n > 0 {
        lemma_call_deltas_tracked(a, tcs, n - 1, ids, c, base, fid);
        lemma_call_delta_tracked(call_deltas(a, tcs, n - 1, ids), tcs[n - 1], ids, c, base, fid);
    }
}

proof fn lemma_reasoning_tracked(b: ChunkAcc, delta: JsonV, c: int, base: Seq<char>, fid: Seq<char>)
    requires
        call_tracked(b, c, base, fid),
    ensures
        call_tracked(reasoning_delta(b, delta), c, base, fid),
        reasoning_delta(b, delta).used == b.used,
{
    let r = reasoning_delta(b, delta);
    match nonempty_str(delta.at("reasoning_content"@)) {
        Some(_) => {
            let extra = r.events.subrange(b.events.len() as int, r.events.len() as int);
            assert(r.events =~= b.events + extra);
            lemma_naming_quiet_after(b.events, extra, fid);
        },
        None => {},
    }
}

proof fn lemma_text_tracked(b: ChunkAcc, delta: JsonV, c: int, base: Seq<char>, fid: Seq<char>)
    requires
        call_tracked(b, c, base, fid),
    ensures
        call_tracked(text_delta(b, delta), c, base, fid),
        text_delta(b, delta).used == b.used,
{
    let t = text_delta(b, delta);
    match nonempty_str(delta.at("content"@)) {
        Some(_) => {
            let extra = t.events.subrange(b.events.len() as int, t.events.len() as int);
            assert(t.events =~= b.events + extra);
            lemma_naming_quiet_after(b.events, extra, fid);
        },
        None => {},
    }
}

proof fn lemma_choice_delta_tracked(
    b: ChunkAcc,
    choice: JsonV,
    ids: Seq<Seq<char>>,
    c: int,
    base: Seq<char>,
    fid: Seq<char>,
)
    requires
        call_tracked(b, c, base, fid),
        fid.len() > 0,
        b.used + choice_delta_count(choice) <= ids.len(),
        forall|k: int| 0 <= k < ids.len() ==> #[trigger] ids[k] != fid,
    ensures
        call_tracked(choice_delta(b, choice, ids), c, base, fid),
        choice_delta(b, choice, ids).used <= b.used + choice_delta_count(choice),
{
    match choice.get("delta"@) {
        Some(delta) => {
            lemma_reasoning_tracked(b, delta, c, base, fid);
            let r = reasoning_delta(b, delta);
            lemma_text_tracked(r, delta, c, base, fid);
            let t = text_delta(r, delta);
            match delta.at("tool_calls"@).as_array() {
                Some(tcs) => lemma_call_deltas_tracked(t, tcs, tcs.len() as int, ids, c, base, fid),
                None => {},
            }
        },
        None => {},
    }
}

proof fn lemma_choice_deltas_tracked(
    a: ChunkAcc,
    cs: Seq<JsonV>,
    n: int,
    ids: Seq<Seq<char>>,
    c: int,
    base: Seq<char>,
    fid: Seq<char>,
)
    requires
        call_tracked(a, c, base, fid),
        fid.len() > 0,
        0 <= n <= cs.len(),
        a.used + delta_count(cs.take(n)) <= ids.len(),
        forall|k: int| 0 <= k < ids.len() ==> #[trigger] ids[k] != fid,
    ensures
        call_tracked(choice_deltas(a, cs, n, ids), c, base, fid),
        choice_deltas(a, cs, n, ids).used <= a.used + delta_count(cs.take(n)),
    decreases n,
{
    if n > 0 {
        assert(cs.take(n).drop_last() =~= cs.take(n - 1));
        assert(cs.take(n).last() == cs[n - 1]);
        lemma_choice_deltas_tracked(a, cs, n - 1, ids, c, base, fid);
        lemma_choice_delta_tracked(choice_deltas(a, cs, n - 1, ids), cs[n - 1], ids, c, base, fid);
    }
}

/// A call's arguments, over a chunk, grow by exactly what the chunk's
/// `function_call_arguments.delta` events naming its item carry, joined in
/// order: a client that joins the deltas of an announced call holds the
/// call's arguments. (The call's item is its own: no other call, and no
/// fresh identifier the chunk hands out, has it.)
pub proof fn law_arguments_join(s: StreamV, chunk: JsonV, ids: Seq<Seq<char>>, c: int)
    requires
        0 <= c < s.calls.len(),
        s.calls[c].item_added,
        s.calls[c].fc_id.len() > 0,
        forall|j: int| 0 <= j < s.calls.len() && j != c ==> (#[trigger] s.calls[j]).fc_id != s.calls[c].fc_id,
        ids.len() == delta_count(chunk_choices(chunk)),
        forall|k: int| 0 <= k < ids.len() ==> #[trigger] ids[k] != s.calls[c].fc_id,
    ensures
        ({
            let r = chunk_result(s, chunk, ids);
            let evs = match r.1 {
                Some(e) => e,
                None => Seq::empty(),
            };
            &&& c < r.0.calls.len()
            &&& r.0.calls[c].fc_id == s.calls[c].fc_id
            &&& r.0.calls[c].arguments == s.calls[c].arguments + deltas_naming(evs, s.calls[c].fc_id)
        }),
{
    let fid = s.calls[c].fc_id;
    let base = s.calls[c].arguments;
    let s1 = match chunk.at("created"@).as_u64() {
        Some(cr) => StreamV { created: cr, ..s },
        None => s,
    };
    if chunk.at("choices"@).as_array() != Some(Seq::<JsonV>::empty()) {
        let cs = chunk_choices(chunk);
        let a0 = ChunkAcc { s: s1, events: Seq::empty(), has_content: false, used: 0 };
        assert(deltas_naming(a0.events, fid) =~= Seq::<char>::empty());
        assert(base + Seq::<char>::empty() =~= base);
        assert(call_tracked(a0, c, base, fid));
        assert(cs.take(cs.len() as int) =~= cs);
        lemma_choice_deltas_tracked(a0, cs, cs.len() as int, ids, c, base, fid);
        let a = choice_deltas(a0, cs, cs.len() as int, ids);
        if a.has_content && !a.s.has_started {
            let head = seq![
                ev(EventKind::Created, start_body("response.created"@, a.s)),
                ev(EventKind::InProgress, start_body("response.in_progress"@, a.s)),
            ];
            lemma_naming_quiet_before(head, a.events, fid);
        }
        let r = chunk_result(s, chunk, ids);
        if r.1 is None {
            assert(a.events.len() == 0);
            assert(deltas_naming(a.events, fid) =~= Seq::<char>::empty());
        }
    } else {
        assert(deltas_naming(Seq::<EventV>::empty(), fid) =~= Seq::<char>::empty());
        assert(base + Seq::<char>::empty() =~= base);
    }
}

} // verus!
