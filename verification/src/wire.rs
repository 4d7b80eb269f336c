//! The bodies the proxy sends, written as JSON: the Chat request to the
//! provider, and the Responses and compaction answers to the client.
//!
//! Members that are `None` are left out where the wire format leaves them
//! out, and written as `null` where it writes them.
use vstd::prelude::*;
use crate::json::{copy_json, object, object_of, owned};
use crate::items::{copy_elems, tagged, tagged_json};
use crate::models::{
    calls_view, msgs_view, opt_json_view, opt_view, ChatCompletionRequest, ChatMessage,
    ChatMessageContent, ChatTool, ChatToolCall, ChatToolV, CompactedOutputItem, CompactedResponse,
    MsgV, OutBlockV, OutputContentBlock, OutputItem, OutputItemV, ResponseUsage, ResponsesResponse,
    ResponsesResponseV, Stop, StopV, ToolCallV,
};
use crate::rewrite::{apply_rewrite, rewritten, steps_view, RewriteConfig, StepV};
use crate::value::{fields_view, group_json_view, seq_view, Json, JsonV, Number, NumberV};

verus! {

broadcast use group_json_view;

pub open spec fn js(s: Seq<char>) -> JsonV {
    JsonV::Str(s)
}

pub open spec fn uint(n: u64) -> JsonV {
    JsonV::Number(NumberV::PosInt(n))
}

/// A member written only when it has a value.
pub open spec fn opt_pair(key: Seq<char>, v: Option<JsonV>) -> Seq<(Seq<char>, JsonV)> {
    match v {
        Some(x) => seq![(key, x)],
        None => Seq::empty(),
    }
}

pub open spec fn opt_str(v: Option<Seq<char>>) -> Option<JsonV> {
    match v {
        Some(x) => Some(js(x)),
        None => None,
    }
}

pub open spec fn opt_bool(v: Option<bool>) -> Option<JsonV> {
    match v {
        Some(x) => Some(JsonV::Bool(x)),
        None => None,
    }
}

pub open spec fn opt_uint(v: Option<u32>) -> Option<JsonV> {
    match v {
        Some(x) => Some(uint(x as u64)),
        None => None,
    }
}

pub open spec fn opt_number(v: Option<Number>) -> Option<JsonV> {
    match v {
        Some(x) => Some(JsonV::Number(x@)),
        None => None,
    }
}

// ─── The Chat request ───────────────────────────────────────────────────

pub open spec fn tool_call_json(c: ToolCallV) -> JsonV {
    object_of(
        seq![
            ("id"@, js(c.id)),
            ("type"@, js(c.call_type)),
            ("function"@, object_of(seq![("name"@, js(c.name)), ("arguments"@, js(c.arguments))])),
        ],
    )
}

pub open spec fn tool_calls_json(cs: Seq<ToolCallV>) -> JsonV {
    JsonV::Array(cs.map_values(|c: ToolCallV| tool_call_json(c)))
}

pub open spec fn content_json(c: Option<Seq<char>>) -> JsonV {
    match c {
        Some(s) => js(s),
        None => JsonV::Null,
    }
}

pub open spec fn opt_calls(c: Option<Seq<ToolCallV>>) -> Option<JsonV> {
    match c {
        Some(cs) => Some(tool_calls_json(cs)),
        None => None,
    }
}

pub open spec fn message_json(m: MsgV) -> JsonV {
    object_of(
        seq![("role"@, js(m.role)), ("content"@, content_json(m.content))] + opt_pair("name"@, opt_str(m.name))
            + opt_pair("tool_calls"@, opt_calls(m.tool_calls)) + opt_pair("tool_call_id"@, opt_str(m.tool_call_id)) + opt_pair("reasoning_content"@, opt_str(m.reasoning_content)),
    )
}

pub open spec fn messages_json(ms: Seq<MsgV>) -> Seq<JsonV> {
    ms.map_values(|m: MsgV| message_json(m))
}

pub open spec fn chat_tool_json(t: ChatToolV) -> JsonV {
    object_of(
        seq![
            ("type"@, js(t.tool_type)),
            ("function"@, object_of(
                seq![("name"@, js(t.name))] + opt_pair("description"@, opt_str(t.description)) + opt_pair("parameters"@, t.parameters) + opt_pair("strict"@, opt_bool(t.strict)),
            )),
        ],
    )
}

pub open spec fn tools_view(ts: Seq<ChatTool>) -> Seq<ChatToolV> {
    ts.map_values(|t: ChatTool| t@)
}

pub open spec fn chat_tools_json(ts: Seq<ChatToolV>) -> JsonV {
    JsonV::Array(ts.map_values(|t: ChatToolV| chat_tool_json(t)))
}

pub open spec fn stop_json(s: StopV) -> JsonV {
    match s {
        StopV::Single(x) => js(x),
        StopV::Multiple(v) => JsonV::Array(v.map_values(|x: Seq<char>| js(x))),
    }
}

pub open spec fn opt_tools(t: Option<Vec<ChatTool>>) -> Option<JsonV> {
    match t {
        Some(v) => Some(chat_tools_json(tools_view(v@))),
        None => None,
    }
}

pub open spec fn opt_stop(s: Option<Stop>) -> Option<JsonV> {
    match s {
        Some(x) => Some(stop_json(x@)),
        None => None,
    }
}

pub open spec fn opt_thinking(t: Option<crate::models::ThinkingConfig>) -> Option<JsonV> {
    match t {
        Some(x) => Some(object_of(seq![("type"@, js(x.thinking_type@))])),
        None => None,
    }
}

/// The Chat request as sent to the provider.
pub open spec fn chat_request_json(c: ChatCompletionRequest) -> JsonV {
    object_of(
        seq![("model"@, js(c.model@)), ("messages"@, JsonV::Array(messages_json(msgs_view(c.messages@))))]
            + opt_pair("temperature"@, opt_number(c.temperature))
            + opt_pair("top_p"@, opt_number(c.top_p))
            + opt_pair("max_tokens"@, opt_uint(c.max_tokens))
            + opt_pair("tools"@, opt_tools(c.tools))
            + opt_pair("tool_choice"@, opt_json_view(c.tool_choice))
            + opt_pair("stream"@, opt_bool(c.stream))
            + opt_pair("response_format"@, opt_json_view(c.response_format))
            + opt_pair("stop"@, opt_stop(c.stop))
            + opt_pair("logprobs"@, opt_bool(c.logprobs))
            + opt_pair("top_logprobs"@, opt_uint(c.top_logprobs))
            + opt_pair("reasoning_effort"@, opt_str(opt_view(c.reasoning_effort)))
            + opt_pair("thinking"@, opt_thinking(c.thinking)),
    )
}

/// Appends a member when it has a value.
fn push_opt(pairs: &mut Vec<(String, Json)>, key: &str, v: Option<Json>)
    ensures
        fields_view(final(pairs)@) == fields_view(old(pairs)@) + opt_pair(key@, opt_json_view(v)),
{
    match v {
        Some(x) => {
            let ghost before = pairs@;
            pairs.push((owned(key), x));
            assert(fields_view(pairs@) =~= fields_view(before) + opt_pair(key@, opt_json_view(v)));
        },
        None => {
            assert(fields_view(pairs@) =~= fields_view(pairs@) + Seq::<(Seq<char>, JsonV)>::empty());
        },
    }
}

fn opt_string_json(s: &Option<String>) -> (r: Option<Json>)
    ensures
        opt_json_view(r) == opt_str(opt_view(*s)),
{
    match s {
        Some(x) => Some(Json::String(x.clone())),
        None => None,
    }
}

fn tool_call_to_json(c: &ChatToolCall) -> (r: Json)
    ensures
        r@ == tool_call_json(c@),
{
    let ff = vec![
        (owned("name"), Json::String(c.function.name.clone())),
        (owned("arguments"), Json::String(c.function.arguments.clone())),
    ];
    assert(fields_view(ff@) =~= seq![("name"@, js(c@.name)), ("arguments"@, js(c@.arguments))]);
    let fun = object(ff);
    let ghost fv = fun@;
    let f = vec![
        (owned("id"), Json::String(c.id.clone())),
        (owned("type"), Json::String(c.call_type.clone())),
        (owned("function"), fun),
    ];
    assert(fields_view(f@) =~= seq![("id"@, js(c@.id)), ("type"@, js(c@.call_type)), ("function"@, fv)]);
    object(f)
}

fn tool_calls_to_json(cs: &Vec<ChatToolCall>) -> (r: Json)
    ensures
        r@ == tool_calls_json(calls_view(cs@)),
{
    let ghost cv = calls_view(cs@);
    let mut out: Vec<Json> = Vec::new();
    let mut i: usize = 0;
    while i < cs.len()
        invariant
            i <= cs@.len(),
            cv == calls_view(cs@),
            cv.len() == cs@.len(),
            seq_view(out@) == cv.take(i as int).map_values(|c: ToolCallV| tool_call_json(c)),
        decreases cs.len() - i,
    {
        assert(cv[i as int] == cs@[i as int]@);
        let ghost before = out@;
        out.push(tool_call_to_json(&cs[i]));
        assert(seq_view(out@) =~= seq_view(before).push(tool_call_json(cv[i as int])));
        assert(cv.take(i + 1).map_values(|c: ToolCallV| tool_call_json(c)) =~= cv.take(i as int).map_values(
            |c: ToolCallV| tool_call_json(c),
        ).push(tool_call_json(cv[i as int])));
        i = i + 1;
    }
    assert(cv.take(cs@.len() as int) =~= cv);
    Json::Array(out)
}

pub fn message_to_json(m: &ChatMessage) -> (r: Json)
    ensures
        r@ == message_json(m@),
{
    let mut pairs: Vec<(String, Json)> = vec![
        (owned("role"), Json::String(m.role.clone())),
        (owned("content"), match &m.content {
            ChatMessageContent::String(s) => Json::String(s.clone()),
            ChatMessageContent::Null => Json::Null,
        }),
    ];
    assert(fields_view(pairs@) =~= seq![("role"@, js(m@.role)), ("content"@, content_json(m@.content))]);
    push_opt(&mut pairs, "name", opt_string_json(&m.name));
    let calls = match &m.tool_calls {
        Some(cs) => Some(tool_calls_to_json(cs)),
        None => None,
    };
    assert(opt_json_view(calls) == opt_calls(m@.tool_calls));
    push_opt(&mut pairs, "tool_calls", calls);
    push_opt(&mut pairs, "tool_call_id", opt_string_json(&m.tool_call_id));
    push_opt(&mut pairs, "reasoning_content", opt_string_json(&m.reasoning_content));
    object(pairs)
}

fn chat_tool_to_json(t: &ChatTool) -> (r: Json)
    ensures
        r@ == chat_tool_json(t@),
{
    let mut fp: Vec<(String, Json)> = vec![(owned("name"), Json::String(t.function.name.clone()))];
    assert(fields_view(fp@) =~= seq![("name"@, js(t@.name))]);
    push_opt(&mut fp, "description", opt_string_json(&t.function.description));
    let params = match &t.function.parameters {
        Some(p) => Some(copy_json(p)),
        None => None,
    };
    push_opt(&mut fp, "parameters", params);
    let strict = match t.function.strict {
        Some(b) => Some(Json::Bool(b)),
        None => None,
    };
    push_opt(&mut fp, "strict", strict);
    let fun = object(fp);
    let ghost fv = fun@;
    let f = vec![(owned("type"), Json::String(t.tool_type.clone())), (owned("function"), fun)];
    assert(fields_view(f@) =~= seq![("type"@, js(t@.tool_type)), ("function"@, fv)]);
    object(f)
}

fn chat_tools_to_json(ts: &Vec<ChatTool>) -> (r: Json)
    ensures
        r@ == chat_tools_json(tools_view(ts@)),
{
    let ghost tv = tools_view(ts@);
    let mut out: Vec<Json> = Vec::new();
    let mut i: usize = 0;
    while i < ts.len()
        invariant
            i <= ts@.len(),
            tv == tools_view(ts@),
            seq_view(out@) == tv.take(i as int).map_values(|t: ChatToolV| chat_tool_json(t)),
        decreases ts.len() - i,
    {
        let ghost before = out@;
        out.push(chat_tool_to_json(&ts[i]));
        assert(seq_view(out@) =~= seq_view(before).push(chat_tool_json(tv[i as int])));
        assert(tv.take(i + 1).map_values(|t: ChatToolV| chat_tool_json(t)) =~= tv.take(i as int).map_values(
            |t: ChatToolV| chat_tool_json(t),
        ).push(chat_tool_json(tv[i as int])));
        i = i + 1;
    }
    assert(tv.take(ts@.len() as int) =~= tv);
    Json::Array(out)
}

fn stop_to_json(s: &Stop) -> (r: Json)
    ensures
        r@ == stop_json(s@),
{
    match s {
        Stop::Single(x) => Json::String(x.clone()),
        Stop::Multiple(v) => {
            let ghost sv = v@.map_values(|x: String| x@);
            let mut out: Vec<Json> = Vec::new();
            let mut i: usize = 0;
            while i < v.len()
                invariant
                    i <= v@.len(),
                    sv == v@.map_values(|x: String| x@),
                    seq_view(out@) == sv.take(i as int).map_values(|x: Seq<char>| js(x)),
                decreases v.len() - i,
            {
                let ghost before = out@;
                out.push(Json::String(v[i].clone()));
                assert(seq_view(out@) =~= seq_view(before).push(js(sv[i as int])));
                assert(sv.take(i + 1).map_values(|x: Seq<char>| js(x)) =~= sv.take(i as int).map_values(
                    |x: Seq<char>| js(x),
                ).push(js(sv[i as int])));
                i = i + 1;
            }
            assert(sv.take(v@.len() as int) =~= sv);
            Json::Array(out)
        },
    }
}

fn messages_to_json(ms: &Vec<ChatMessage>) -> (r: Vec<Json>)
    ensures
        seq_view(r@) == messages_json(msgs_view(ms@)),
{
    let ghost mv = msgs_view(ms@);
    let mut msgs: Vec<Json> = Vec::new();
    let mut i: usize = 0;
    while i < ms.len()
        invariant
            i <= ms@.len(),
            mv == msgs_view(ms@),
            mv.len() == ms@.len(),
            seq_view(msgs@) == messages_json(mv.take(i as int)),
        decreases ms.len() - i,
    {
        assert(mv[i as int] == ms@[i as int]@);
        let ghost before = msgs@;
        msgs.push(message_to_json(&ms[i]));
        assert(seq_view(msgs@) =~= seq_view(before).push(message_json(mv[i as int])));
        assert(messages_json(mv.take(i + 1)) =~= messages_json(mv.take(i as int)).push(
            message_json(mv[i as int]),
        ));
        i = i + 1;
    }
    assert(mv.take(ms@.len() as int) =~= mv);
    msgs
}

impl ChatCompletionRequest {
    /// The request as sent to the provider (see [`chat_request_json`]).
    #[verifier::rlimit(40)]
    pub fn to_json(&self) -> (r: Json)
        ensures
            r@ == chat_request_json(*self),
    {
        let msgs = messages_to_json(&self.messages);
        let ghost msv = seq_view(msgs@);
        let mut pairs: Vec<(String, Json)> = vec![
            (owned("model"), Json::String(self.model.clone())),
            (owned("messages"), Json::Array(msgs)),
        ];
        assert(fields_view(pairs@) =~= seq![("model"@, js(self.model@)), ("messages"@, JsonV::Array(msv))]);
        let temperature = match &self.temperature {
            Some(n) => Some(Json::Number(n.duplicate())),
            None => None,
        };
        push_opt(&mut pairs, "temperature", temperature);
        let top_p = match &self.top_p {
            Some(n) => Some(Json::Number(n.duplicate())),
            None => None,
        };
        push_opt(&mut pairs, "top_p", top_p);
        let max_tokens = match self.max_tokens {
            Some(n) => Some(Json::Number(Number::PosInt(n as u64))),
            None => None,
        };
        push_opt(&mut pairs, "max_tokens", max_tokens);
        let tools = match &self.tools {
            Some(ts) => Some(chat_tools_to_json(ts)),
            None => None,
        };
        push_opt(&mut pairs, "tools", tools);
        let tool_choice = match &self.tool_choice {
            Some(v) => Some(copy_json(v)),
            None => None,
        };
        push_opt(&mut pairs, "tool_choice", tool_choice);
        let stream = match self.stream {
            Some(b) => Some(Json::Bool(b)),
            None => None,
        };
        push_opt(&mut pairs, "stream", stream);
        let response_format = match &self.response_format {
            Some(v) => Some(copy_json(v)),
            None => None,
        };
        push_opt(&mut pairs, "response_format", response_format);
        let stop = match &self.stop {
            Some(s) => Some(stop_to_json(s)),
            None => None,
        };
        push_opt(&mut pairs, "stop", stop);
        let logprobs = match self.logprobs {
            Some(b) => Some(Json::Bool(b)),
            None => None,
        };
        push_opt(&mut pairs, "logprobs", logprobs);
        let top_logprobs = match self.top_logprobs {
            Some(n) => Some(Json::Number(Number::PosInt(n as u64))),
            None => None,
        };
        push_opt(&mut pairs, "top_logprobs", top_logprobs);
        push_opt(&mut pairs, "reasoning_effort", opt_string_json(&self.reasoning_effort));
        let thinking = match &self.thinking {
            Some(t) => {
                let tf = vec![(owned("type"), Json::String(t.thinking_type.clone()))];
                assert(fields_view(tf@) =~= seq![("type"@, js(t.thinking_type@))]);
                Some(object(tf))
            },
            None => None,
        };
        push_opt(&mut pairs, "thinking", thinking);
        object(pairs)
    }
}

// ─── The Responses answer ───────────────────────────────────────────────

pub open spec fn block_json(b: OutBlockV) -> JsonV {
    match b {
        OutBlockV::Text { text, annotations } => object_of(
            seq![("type"@, js("output_text"@)), ("text"@, js(text)), ("annotations"@, JsonV::Array(annotations))],
        ),
        OutBlockV::Refusal { refusal } => object_of(seq![("type"@, js("refusal"@)), ("refusal"@, js(refusal))]),
    }
}

pub open spec fn blocks_json(bs: Seq<OutBlockV>) -> Seq<JsonV> {
    bs.map_values(|b: OutBlockV| block_json(b))
}

/// The `content` of a reasoning item, left out when empty.
pub open spec fn reasoning_content_pair(content: Seq<JsonV>) -> Seq<(Seq<char>, JsonV)> {
    if content.len() == 0 {
        Seq::empty()
    } else {
        seq![("content"@, JsonV::Array(content))]
    }
}

pub open spec fn output_item_json(o: OutputItemV) -> JsonV {
    match o {
        OutputItemV::Message { id, role, status, content } => object_of(
            seq![
                ("type"@, js("message"@)),
                ("id"@, js(id)),
                ("role"@, js(role)),
                ("status"@, js(status)),
                ("content"@, JsonV::Array(blocks_json(content))),
            ],
        ),
        OutputItemV::FunctionCall { id, call_id, name, arguments, status } => object_of(
            seq![
                ("type"@, js("function_call"@)),
                ("id"@, js(id)),
                ("call_id"@, js(call_id)),
                ("name"@, js(name)),
                ("arguments"@, js(arguments)),
                ("status"@, js(status)),
            ],
        ),
        OutputItemV::Reasoning { id, summary, content } => object_of(
            seq![("type"@, js("reasoning"@)), ("id"@, js(id)), ("summary"@, JsonV::Array(summary))]
                + reasoning_content_pair(content),
        ),
    }
}

pub open spec fn outputs_json(os: Seq<OutputItemV>) -> Seq<JsonV> {
    os.map_values(|o: OutputItemV| output_item_json(o))
}

pub open spec fn usage_json(u: ResponseUsage) -> JsonV {
    object_of(
        seq![
            ("input_tokens"@, uint(u.input_tokens as u64)),
            ("output_tokens"@, uint(u.output_tokens as u64)),
            ("total_tokens"@, uint(u.total_tokens as u64)),
            ("input_tokens_details"@, object_of(
                seq![("cached_tokens"@, uint(u.input_tokens_details.cached_tokens as u64))],
            )),
            ("output_tokens_details"@, object_of(
                seq![("reasoning_tokens"@, uint(u.output_tokens_details.reasoning_tokens as u64))],
            )),
        ],
    )
}

pub open spec fn opt_usage(u: Option<ResponseUsage>) -> Option<JsonV> {
    match u {
        Some(x) => Some(usage_json(x)),
        None => None,
    }
}

/// The Responses answer as sent to the client.
pub open spec fn response_json(r: ResponsesResponseV) -> JsonV {
    object_of(
        seq![
            ("id"@, js(r.id)),
            ("object"@, js(r.object)),
            ("created_at"@, uint(r.created_at)),
            ("status"@, js(r.status)),
            ("model"@, js(r.model)),
            ("output"@, JsonV::Array(outputs_json(r.output))),
        ] + opt_pair("usage"@, opt_usage(r.usage)) + opt_pair("incomplete_details"@, r.incomplete_details)
            + opt_pair("error"@, r.error),
    )
}

fn u32_json(n: u32) -> (r: Json)
    ensures
        r@ == uint(n as u64),
{
    Json::Number(Number::PosInt(n as u64))
}

pub fn usage_to_json(u: &ResponseUsage) -> (r: Json)
    ensures
        r@ == usage_json(*u),
{
    let cf = vec![(owned("cached_tokens"), u32_json(u.input_tokens_details.cached_tokens))];
    assert(fields_view(cf@) =~= seq![("cached_tokens"@, uint(u.input_tokens_details.cached_tokens as u64))]);
    let cached = object(cf);
    let ghost cv = cached@;
    let rf = vec![(owned("reasoning_tokens"), u32_json(u.output_tokens_details.reasoning_tokens))];
    assert(fields_view(rf@) =~= seq![("reasoning_tokens"@, uint(u.output_tokens_details.reasoning_tokens as u64))]);
    let reasoning = object(rf);
    let ghost rv = reasoning@;
    let f = vec![
        (owned("input_tokens"), u32_json(u.input_tokens)),
        (owned("output_tokens"), u32_json(u.output_tokens)),
        (owned("total_tokens"), u32_json(u.total_tokens)),
        (owned("input_tokens_details"), cached),
        (owned("output_tokens_details"), reasoning),
    ];
    assert(fields_view(f@) =~= seq![
        ("input_tokens"@, uint(u.input_tokens as u64)),
        ("output_tokens"@, uint(u.output_tokens as u64)),
        ("total_tokens"@, uint(u.total_tokens as u64)),
        ("input_tokens_details"@, cv),
        ("output_tokens_details"@, rv),
    ]);
    object(f)
}

fn block_to_json(b: &OutputContentBlock) -> (r: Json)
    ensures
        r@ == block_json(b@),
{
    match b {
        OutputContentBlock::Text { text, annotations } => {
            let f = vec![
                (owned("type"), Json::String(owned("output_text"))),
                (owned("text"), Json::String(text.clone())),
                (owned("annotations"), Json::Array(copy_elems(annotations))),
            ];
            assert(fields_view(f@) =~= seq![
                ("type"@, js("output_text"@)),
                ("text"@, js(text@)),
                ("annotations"@, JsonV::Array(seq_view(annotations@))),
            ]);
            object(f)
        },
        OutputContentBlock::Refusal { refusal } => {
            let f = vec![(owned("type"), Json::String(owned("refusal"))), (owned("refusal"), Json::String(refusal.clone()))];
            assert(fields_view(f@) =~= seq![("type"@, js("refusal"@)), ("refusal"@, js(refusal@))]);
            object(f)
        },
    }
}

fn blocks_to_json(bs: &Vec<OutputContentBlock>) -> (r: Vec<Json>)
    ensures
        seq_view(r@) == blocks_json(bs@.map_values(|b: OutputContentBlock| b@)),
{
    let ghost bv = bs@.map_values(|b: OutputContentBlock| b@);
    let mut out: Vec<Json> = Vec::new();
    let mut i: usize = 0;
    while i < bs.len()
        invariant
            i <= bs@.len(),
            bv == bs@.map_values(|b: OutputContentBlock| b@),
            seq_view(out@) == blocks_json(bv.take(i as int)),
        decreases bs.len() - i,
    {
        let ghost before = out@;
        out.push(block_to_json(&bs[i]));
        assert(seq_view(out@) =~= seq_view(before).push(block_json(bv[i as int])));
        assert(blocks_json(bv.take(i + 1)) =~= blocks_json(bv.take(i as int)).push(block_json(bv[i as int])));
        i = i + 1;
    }
    assert(bv.take(bs@.len() as int) =~= bv);
    out
}

pub fn output_item_to_json(o: &OutputItem) -> (r: Json)
    ensures
        r@ == output_item_json(o@),
{
    match o {
        OutputItem::Message(m) => {
            let blocks = blocks_to_json(&m.content);
            let ghost bv = seq_view(blocks@);
            let f = vec![
                (owned("type"), Json::String(owned("message"))),
                (owned("id"), Json::String(m.id.clone())),
                (owned("role"), Json::String(m.role.clone())),
                (owned("status"), Json::String(m.status.clone())),
                (owned("content"), Json::Array(blocks)),
            ];
            assert(fields_view(f@) =~= seq![
                ("type"@, js("message"@)),
                ("id"@, js(m.id@)),
                ("role"@, js(m.role@)),
                ("status"@, js(m.status@)),
                ("content"@, JsonV::Array(bv)),
            ]);
            object(f)
        },
        OutputItem::FunctionCall(c) => {
            let f = vec![
                (owned("type"), Json::String(owned("function_call"))),
                (owned("id"), Json::String(c.id.clone())),
                (owned("call_id"), Json::String(c.call_id.clone())),
                (owned("name"), Json::String(c.name.clone())),
                (owned("arguments"), Json::String(c.arguments.clone())),
                (owned("status"), Json::String(c.status.clone())),
            ];
            assert(fields_view(f@) =~= seq![
                ("type"@, js("function_call"@)),
                ("id"@, js(c.id@)),
                ("call_id"@, js(c.call_id@)),
                ("name"@, js(c.name@)),
                ("arguments"@, js(c.arguments@)),
                ("status"@, js(c.status@)),
            ]);
            object(f)
        },
        OutputItem::Reasoning(x) => {
            let mut f = vec![
                (owned("type"), Json::String(owned("reasoning"))),
                (owned("id"), Json::String(x.id.clone())),
                (owned("summary"), Json::Array(copy_elems(&x.summary))),
            ];
            assert(fields_view(f@) =~= seq![
                ("type"@, js("reasoning"@)),
                ("id"@, js(x.id@)),
                ("summary"@, JsonV::Array(seq_view(x.summary@))),
            ]);
            let ghost f0 = fields_view(f@);
            if x.content.len() > 0 {
                f.push((owned("content"), Json::Array(copy_elems(&x.content))));
                assert(fields_view(f@) =~= f0 + reasoning_content_pair(seq_view(x.content@)));
            } else {
                assert(fields_view(f@) =~= f0 + reasoning_content_pair(seq_view(x.content@)));
            }
            object(f)
        },
    }
}

impl ResponsesResponse {
    /// The answer as sent to the client (see [`response_json`]).
    #[verifier::rlimit(40)]
    pub fn to_json(&self) -> (r: Json)
        ensures
            r@ == response_json(self@),
    {
        let ghost ov = self.output@.map_values(|o: OutputItem| o@);
        let mut out: Vec<Json> = Vec::new();
        let mut i: usize = 0;
        while i < self.output.len()
            invariant
                i <= self.output@.len(),
                ov == self.output@.map_values(|o: OutputItem| o@),
                seq_view(out@) == outputs_json(ov.take(i as int)),
            decreases self.output.len() - i,
        {
            let ghost before = out@;
            out.push(output_item_to_json(&self.output[i]));
            assert(seq_view(out@) =~= seq_view(before).push(output_item_json(ov[i as int])));
            assert(outputs_json(ov.take(i + 1)) =~= outputs_json(ov.take(i as int)).push(
                output_item_json(ov[i as int]),
            ));
            i = i + 1;
        }
        assert(ov.take(self.output@.len() as int) =~= ov);
        let ghost outv = seq_view(out@);
        let mut pairs = vec![
            (owned("id"), Json::String(self.id.clone())),
            (owned("object"), Json::String(self.object.clone())),
            (owned("created_at"), Json::Number(Number::PosInt(self.created_at))),
            (owned("status"), Json::String(self.status.clone())),
            (owned("model"), Json::String(self.model.clone())),
            (owned("output"), Json::Array(out)),
        ];
        assert(fields_view(pairs@) =~= seq![
            ("id"@, js(self.id@)),
            ("object"@, js(self.object@)),
            ("created_at"@, uint(self.created_at)),
            ("status"@, js(self.status@)),
            ("model"@, js(self.model@)),
            ("output"@, JsonV::Array(outv)),
        ]);
        let usage = match &self.usage {
            Some(u) => Some(usage_to_json(u)),
            None => None,
        };
        push_opt(&mut pairs, "usage", usage);
        let details = match &self.incomplete_details {
            Some(v) => Some(copy_json(v)),
            None => None,
        };
        push_opt(&mut pairs, "incomplete_details", details);
        let error = match &self.error {
            Some(v) => Some(copy_json(v)),
            None => None,
        };
        push_opt(&mut pairs, "error", error);
        object(pairs)
    }
}

// ─── The compaction answer ──────────────────────────────────────────────

pub open spec fn compacted_item_json(o: CompactedOutputItem) -> JsonV {
    match o {
        CompactedOutputItem::Message(m) => tagged("message"@, m@),
        CompactedOutputItem::Compaction(c) => object_of(
            seq![("type"@, js("compaction"@)), ("id"@, js(c.id@)), ("encrypted_content"@, js(c.encrypted_content@))],
        ),
    }
}

/// Whether an item can be written: a message holds an object.
pub open spec fn compacted_item_writable(o: CompactedOutputItem) -> bool {
    match o {
        CompactedOutputItem::Message(m) => m@ is Object,
        _ => true,
    }
}

pub open spec fn compacted_items_json(os: Seq<CompactedOutputItem>) -> Seq<JsonV> {
    os.map_values(|o: CompactedOutputItem| compacted_item_json(o))
}

/// The compaction answer as sent to the client.
pub open spec fn compacted_json(c: CompactedResponse) -> JsonV {
    object_of(
        seq![
            ("id"@, js(c.id@)),
            ("object"@, js(c.object@)),
            ("created_at"@, uint(c.created_at)),
            ("output"@, JsonV::Array(compacted_items_json(c.output@))),
        ] + opt_pair("usage"@, opt_usage(c.usage)),
    )
}

fn compacted_item_to_json(o: &CompactedOutputItem) -> (r: Json)
    requires
        compacted_item_writable(*o),
    ensures
        r@ == compacted_item_json(*o),
{
    match o {
        CompactedOutputItem::Message(m) => tagged_json("message", m),
        CompactedOutputItem::Compaction(c) => {
            let f = vec![
                (owned("type"), Json::String(owned("compaction"))),
                (owned("id"), Json::String(c.id.clone())),
                (owned("encrypted_content"), Json::String(c.encrypted_content.clone())),
            ];
            assert(fields_view(f@) =~= seq![
                ("type"@, js("compaction"@)),
                ("id"@, js(c.id@)),
                ("encrypted_content"@, js(c.encrypted_content@)),
            ]);
            object(f)
        },
    }
}

impl CompactedResponse {
    /// The answer as sent to the client (see [`compacted_json`]).
    pub fn to_json(&self) -> (r: Json)
        requires
            forall|i: int| 0 <= i < self.output@.len() ==> compacted_item_writable(#[trigger] self.output@[i]),
        ensures
            r@ == compacted_json(*self),
    {
        let ghost ov = self.output@;
        let mut out: Vec<Json> = Vec::new();
        let mut i: usize = 0;
        while i < self.output.len()
            invariant
                i <= self.output@.len(),
                ov == self.output@,
                forall|k: int| 0 <= k < ov.len() ==> compacted_item_writable(#[trigger] ov[k]),
                seq_view(out@) == compacted_items_json(ov.take(i as int)),
            decreases self.output.len() - i,
        {
            let ghost before = out@;
            out.push(compacted_item_to_json(&self.output[i]));
            assert(seq_view(out@) =~= seq_view(before).push(compacted_item_json(ov[i as int])));
            assert(compacted_items_json(ov.take(i + 1)) =~= compacted_items_json(ov.take(i as int)).push(
                compacted_item_json(ov[i as int]),
            ));
            i = i + 1;
        }
        assert(ov.take(self.output@.len() as int) =~= ov);
        let ghost outv = seq_view(out@);
        let mut pairs = vec![
            (owned("id"), Json::String(self.id.clone())),
            (owned("object"), Json::String(self.object.clone())),
            (owned("created_at"), Json::Number(Number::PosInt(self.created_at))),
            (owned("output"), Json::Array(out)),
        ];
        assert(fields_view(pairs@) =~= seq![
            ("id"@, js(self.id@)),
            ("object"@, js(self.object@)),
            ("created_at"@, uint(self.created_at)),
            ("output"@, JsonV::Array(outv)),
        ]);
        let usage = match &self.usage {
            Some(u) => Some(usage_to_json(u)),
            None => None,
        };
        push_opt(&mut pairs, "usage", usage);
        object(pairs)
    }
}


// ─── The body of an outgoing Chat request ───────────────────────────────

/// The body sent to the provider for a Chat request: the request as
/// written (see [`chat_request_json`]), rewritten by the provider's
/// outgoing rules; with no rules it is sent as written. A rule that fails
/// fails the body, with its message.
pub fn build_typed_chat_request(chat_req: &ChatCompletionRequest, chat_out: &RewriteConfig) -> (r: Result<Json, String>)
    ensures
        match r {
            Ok(b) => rewritten(chat_request_json(*chat_req), steps_view(chat_out.steps@)) == (
            b@, Ok::<(), Seq<char>>(())),
            Err(e) => rewritten(chat_request_json(*chat_req), steps_view(chat_out.steps@)).1 == Err::<
                (),
                Seq<char>,
            >(e@),
        },
        chat_out.steps@.len() == 0 ==> (r matches Ok(b) && b@ == chat_request_json(*chat_req)),
{
    let mut body = chat_req.to_json();
    if chat_out.is_empty() {
        assert(steps_view(chat_out.steps@) =~= Seq::<StepV>::empty());
        return Ok(body);
    }
    match apply_rewrite(&mut body, chat_out) {
        Ok(()) => Ok(body),
        Err(e) => Err(e),
    }
}

} // verus!
