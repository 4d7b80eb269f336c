//! Chat Completions response → Responses API response.
//!
//! The first choice gives the output: a reasoning item for reasoning
//! content, a message item for the text (a refusal when a content filter
//! left no text), and one function call item per tool call.
use vstd::prelude::*;
use crate::ids::{is_id, new_id};
use crate::json::{object, object_of, owned, str_eq};
use crate::text::{has_prefix, starts_with};
use crate::value::{fields_view, group_json_view, seq_view, Json, JsonV};
use crate::models::{
    calls_view, opt_view, ChatChoice, ChatCompletionResponse, ChatError, ChatResponseMessage,
    ChatUsage, InputTokensDetails, OutBlockV, OutputContentBlock, OutputFunctionCall, OutputItem,
    OutputItemV, OutputMessage, OutputReasoning, OutputTokensDetails, ResponseUsage,
    ResponsesResponse, ResponsesResponseV, ToolCallV,
};

verus! {

broadcast use group_json_view;

// ─── What the conversion produces ───────────────────────────────────────

/// The status of the message of a choice that finished for `finish`.
pub open spec fn finish_status(finish: Option<Seq<char>>) -> Seq<char> {
    if finish == Some("content_filter"@) || finish == Some("insufficient_system_resource"@) {
        "incomplete"@
    } else {
        "completed"@
    }
}

pub open spec fn reason_object(reason: Seq<char>) -> JsonV {
    object_of(seq![("reason"@, JsonV::Str(reason))])
}

/// Why a response is incomplete, for the finish reasons that say so.
pub open spec fn incomplete_of(finish: Option<Seq<char>>) -> Option<JsonV> {
    if finish == Some("content_filter"@) {
        Some(reason_object("content_filter"@))
    } else if finish == Some("length"@) {
        Some(reason_object("max_output_tokens"@))
    } else {
        None
    }
}

pub open spec fn text_block(text: Seq<char>) -> OutBlockV {
    OutBlockV::Text { text, annotations: Seq::empty() }
}

/// The content blocks of the message of a choice.
pub open spec fn content_blocks_of(m: ChatResponseMessage, finish: Option<Seq<char>>) -> Seq<OutBlockV> {
    match m.content {
        Some(t) => if t@.len() > 0 {
            seq![text_block(t@)]
        } else {
            Seq::empty()
        },
        None => if m.tool_calls is None {
            if finish == Some("content_filter"@) {
                seq![OutBlockV::Refusal { refusal: "content_filter"@ }]
            } else {
                seq![text_block(Seq::empty())]
            }
        } else {
            Seq::empty()
        },
    }
}

pub open spec fn reasoning_block(text: Seq<char>) -> JsonV {
    object_of(seq![("type"@, JsonV::Str("reasoning_text"@)), ("text"@, JsonV::Str(text))])
}

pub open spec fn reasoning_items(m: ChatResponseMessage, id: Seq<char>) -> Seq<OutputItemV> {
    match m.reasoning_content {
        Some(rc) => if rc@.len() > 0 {
            seq![
                OutputItemV::Reasoning {
                    id,
                    summary: Seq::empty(),
                    content: seq![reasoning_block(rc@)],
                },
            ]
        } else {
            Seq::empty()
        },
        None => Seq::empty(),
    }
}

pub open spec fn message_items(m: ChatResponseMessage, finish: Option<Seq<char>>, id: Seq<char>) -> Seq<
    OutputItemV,
> {
    let blocks = content_blocks_of(m, finish);
    if blocks.len() > 0 || m.content is Some || m.tool_calls is None {
        seq![
            OutputItemV::Message {
                id,
                role: "assistant"@,
                status: finish_status(finish),
                content: blocks,
            },
        ]
    } else {
        Seq::empty()
    }
}

pub open spec fn call_items(calls: Seq<ToolCallV>, ids: Seq<Seq<char>>) -> Seq<OutputItemV> {
    Seq::new(
        calls.len(),
        |i: int|
            OutputItemV::FunctionCall {
                id: ids[i],
                call_id: calls[i].id,
                name: calls[i].name,
                arguments: calls[i].arguments,
                status: "completed"@,
            },
    )
}

pub open spec fn message_calls(m: ChatResponseMessage) -> Seq<ToolCallV> {
    match m.tool_calls {
        Some(v) => calls_view(v@),
        None => Seq::empty(),
    }
}

/// The identifiers a response takes.
pub ghost struct ResponseIdsV {
    pub response: Seq<char>,
    pub message: Seq<char>,
    pub reasoning: Seq<char>,
    pub calls: Seq<Seq<char>>,
}

pub open spec fn choice_output(c: ChatChoice, ids: ResponseIdsV) -> Seq<OutputItemV> {
    let finish = opt_view(c.finish_reason);
    reasoning_items(c.message, ids.reasoning) + message_items(c.message, finish, ids.message)
        + call_items(message_calls(c.message), ids.calls)
}

pub open spec fn json_u64_member(d: Option<Json>, key: Seq<char>) -> Option<u64> {
    match d {
        Some(d) => match d@.get(key) {
            Some(v) => v.as_u64(),
            None => None,
        },
        None => None,
    }
}

pub open spec fn or_zero(x: Option<u32>) -> u32 {
    match x {
        Some(v) => v,
        None => 0,
    }
}

/// Usage in Responses API terms. Cached tokens are OpenAI's
/// `prompt_tokens_details.cached_tokens`, else DeepSeek's cache hits and
/// misses added up.
pub open spec fn usage_of(u: ChatUsage) -> ResponseUsage {
    let reasoning = match json_u64_member(u.completion_tokens_details, "reasoning_tokens"@) {
        Some(v) => v,
        None => 0,
    };
    let cached = match json_u64_member(u.prompt_tokens_details, "cached_tokens"@) {
        Some(v) => v,
        None => (or_zero(u.prompt_cache_hit_tokens) + or_zero(u.prompt_cache_miss_tokens)) as u64,
    };
    ResponseUsage {
        input_tokens: u.prompt_tokens,
        output_tokens: u.completion_tokens,
        total_tokens: u.total_tokens,
        input_tokens_details: InputTokensDetails { cached_tokens: cached as u32 },
        output_tokens_details: OutputTokensDetails { reasoning_tokens: reasoning as u32 },
    }
}

pub open spec fn error_of(e: ChatError) -> JsonV {
    object_of(
        seq![
            ("code"@, JsonV::Str(
                match e.code {
                    Some(c) => c@,
                    None => Seq::empty(),
                },
            )),
            ("message"@, JsonV::Str(e.message@)),
        ],
    )
}

pub open spec fn tool_call_count(c: ChatCompletionResponse) -> nat {
    if c.choices@.len() > 0 {
        message_calls(c.choices@[0].message).len()
    } else {
        0
    }
}

/// The Responses API response to a Chat response, with the given identifiers.
pub open spec fn response_of(c: ChatCompletionResponse, model: Seq<char>, ids: ResponseIdsV) -> ResponsesResponseV {
    ResponsesResponseV {
        id: if starts_with(c.id@, "resp_"@) {
            c.id@
        } else {
            ids.response
        },
        object: "response"@,
        created_at: c.created,
        status: if c.error is Some {
            "failed"@
        } else {
            "completed"@
        },
        model,
        output: if c.choices@.len() > 0 {
            choice_output(c.choices@[0], ids)
        } else {
            Seq::empty()
        },
        usage: match c.usage {
            Some(u) => Some(usage_of(u)),
            None => None,
        },
        incomplete_details: if c.choices@.len() > 0 {
            incomplete_of(opt_view(c.choices@[0].finish_reason))
        } else {
            None
        },
        error: match c.error {
            Some(e) => Some(error_of(e)),
            None => None,
        },
    }
}

/// The identifiers that a fresh response takes: each a prefix and 32 hex digits.
pub open spec fn ids_fresh(ids: ResponseIdsV, calls: nat) -> bool {
    &&& is_id(ids.response, "resp_"@)
    &&& is_id(ids.message, "msg_"@)
    &&& is_id(ids.reasoning, "rs_"@)
    &&& ids.calls.len() == calls
    &&& forall|i: int| 0 <= i < calls ==> is_id(#[trigger] ids.calls[i], "fc_"@)
}

// ─── The conversion ─────────────────────────────────────────────────────

/// Identifiers for one response.
#[derive(Debug)]
pub struct ResponseIds {
    pub response: String,
    pub message: String,
    pub reasoning: String,
    pub calls: Vec<String>,
}

impl View for ResponseIds {
    type V = ResponseIdsV;

    open spec fn view(&self) -> ResponseIdsV {
        ResponseIdsV {
            response: self.response@,
            message: self.message@,
            reasoning: self.reasoning@,
            calls: self.calls@.map_values(|s: String| s@),
        }
    }
}

fn opt_str_eq(s: &Option<String>, lit: &str) -> (r: bool)
    ensures
        r == (opt_view(*s) == Some(lit@)),
{
    match s {
        Some(x) => str_eq(x.as_str(), lit),
        None => false,
    }
}

fn json_u64_field(d: &Option<Json>, key: &str) -> (r: Option<u64>)
    ensures
        r == json_u64_member(*d, key@),
{
    match d {
        Some(d) => match d.get(key) {
            Some(v) => v.as_u64(),
            None => None,
        },
        None => None,
    }
}

/// Usage in Responses API terms.
pub fn response_usage(u: &ChatUsage) -> (r: ResponseUsage)
    ensures
        r == usage_of(*u),
{
    let reasoning_tokens: u64 = match json_u64_field(&u.completion_tokens_details, "reasoning_tokens") {
        Some(v) => v,
        None => 0,
    };
    let hit: u32 = match u.prompt_cache_hit_tokens {
        Some(v) => v,
        None => 0,
    };
    let miss: u32 = match u.prompt_cache_miss_tokens {
        Some(v) => v,
        None => 0,
    };
    let cached_tokens: u64 = match json_u64_field(&u.prompt_tokens_details, "cached_tokens") {
        Some(v) => v,
        None => hit as u64 + miss as u64,
    };
    ResponseUsage {
        input_tokens: u.prompt_tokens,
        output_tokens: u.completion_tokens,
        total_tokens: u.total_tokens,
        input_tokens_details: InputTokensDetails { cached_tokens: cached_tokens as u32 },
        output_tokens_details: OutputTokensDetails { reasoning_tokens: reasoning_tokens as u32 },
    }
}

fn reason_json(reason: &str) -> (r: Json)
    ensures
        r@ == reason_object(reason@),
{
    let pairs = vec![(owned("reason"), Json::str_value(reason))];
    assert(fields_view(pairs@) =~= seq![("reason"@, JsonV::Str(reason@))]);
    object(pairs)
}

fn choice_items(c: &ChatChoice, ids: &ResponseIds) -> (r: Vec<OutputItem>)
    requires
        ids.calls@.len() >= message_calls(c.message).len(),
    ensures
        r@.map_values(|o: OutputItem| o@) == choice_output(*c, ids@),
{
    let ghost finish = opt_view(c.finish_reason);
    let m = &c.message;
    let mut out: Vec<OutputItem> = Vec::new();
    match &m.reasoning_content {
        Some(rc) => {
            if !rc.as_str().is_empty() {
                let pairs = vec![
                    (owned("type"), Json::str_value("reasoning_text")),
                    (owned("text"), Json::str_value(rc.as_str())),
                ];
                assert(fields_view(pairs@) =~= seq![
                    ("type"@, JsonV::Str("reasoning_text"@)),
                    ("text"@, JsonV::Str(rc@)),
                ]);
                let block = object(pairs);
                let content = vec![block];
                assert(seq_view(content@) =~= seq![reasoning_block(rc@)]);
                out.push(
                    OutputItem::Reasoning(
                        OutputReasoning {
                            id: ids.reasoning.clone(),
                            summary: Vec::new(),
                            content,
                        },
                    ),
                );
            }
        },
        None => {},
    }
    assert(out@.map_values(|o: OutputItem| o@) =~= reasoning_items(*m, ids@.reasoning)) by {
        if out@.len() > 0 {
            assert(seq_view(out@[0]->Reasoning_0.summary@) =~= Seq::<JsonV>::empty());
        }
    }
    let ghost after_reasoning = out@;
    let mut blocks: Vec<OutputContentBlock> = Vec::new();
    match &m.content {
        Some(text) => {
            if !text.as_str().is_empty() {
                blocks.push(OutputContentBlock::Text { text: text.clone(), annotations: Vec::new() });
            }
        },
        None => {
            if m.tool_calls.is_none() {
                if opt_str_eq(&c.finish_reason, "content_filter") {
                    blocks.push(OutputContentBlock::Refusal { refusal: owned("content_filter") });
                } else {
                    blocks.push(OutputContentBlock::Text { text: String::new(), annotations: Vec::new() });
                }
            }
        },
    }
    assert(blocks@.map_values(|b: OutputContentBlock| b@) =~= content_blocks_of(*m, finish)) by {
        if blocks@.len() > 0 {
            match blocks@[0] {
                OutputContentBlock::Text { text, annotations } => {
                    assert(seq_view(annotations@) =~= Seq::<JsonV>::empty());
                },
                _ => {},
            }
        }
    }
    let status = if opt_str_eq(&c.finish_reason, "content_filter") || opt_str_eq(
        &c.finish_reason,
        "insufficient_system_resource",
    ) {
        owned("incomplete")
    } else {
        owned("completed")
    };
    if blocks.len() > 0 || m.content.is_some() || m.tool_calls.is_none() {
        out.push(
            OutputItem::Message(
                OutputMessage {
                    id: ids.message.clone(),
                    role: owned("assistant"),
                    status,
                    content: blocks,
                },
            ),
        );
    }
    assert(out@.map_values(|o: OutputItem| o@) =~= reasoning_items(*m, ids@.reasoning) + message_items(
        *m,
        finish,
        ids@.message,
    ));
    let ghost after_message = out@;
    match &m.tool_calls {
        Some(calls) => {
            let mut i: usize = 0;
            while i < calls.len()
                invariant
                    i <= calls@.len(),
                    m.tool_calls == Some(*calls),
                    ids.calls@.len() >= calls@.len(),
                    out@.len() == after_message.len() + i,
                    forall|k: int| 0 <= k < after_message.len() ==> out@[k] == after_message[k],
                    forall|k: int|
                        0 <= k < i ==> (#[trigger] out@[after_message.len() + k])@
                            == call_items(calls_view(calls@), ids@.calls)[k],
                decreases calls.len() - i,
            {
                let tc = &calls[i];
                out.push(
                    OutputItem::FunctionCall(
                        OutputFunctionCall {
                            id: ids.calls[i].clone(),
                            call_id: tc.id.clone(),
                            name: tc.function.name.clone(),
                            arguments: tc.function.arguments.clone(),
                            status: owned("completed"),
                        },
                    ),
                );
                proof {
                    assert(ids@.calls[i as int] == ids.calls@[i as int]@);
                    assert(calls_view(calls@)[i as int] == calls@[i as int]@);
                }
                i = i + 1;
            }
            let ghost lhs = out@.map_values(|o: OutputItem| o@);
            let ghost rhs = after_message.map_values(|o: OutputItem| o@) + call_items(
                message_calls(*m),
                ids@.calls,
            );
            assert forall|k: int| 0 <= k < lhs.len() implies lhs[k] == rhs[k] by {
                if k >= after_message.len() {
                    let j = k - after_message.len();
                    assert(out@[after_message.len() + j]@ == call_items(calls_view(calls@), ids@.calls)[j]);
                }
            }
            assert(out@.map_values(|o: OutputItem| o@) =~= after_message.map_values(
                |o: OutputItem| o@,
            ) + call_items(message_calls(*m), ids@.calls));
        },
        None => {
            assert(call_items(message_calls(*m), ids@.calls) =~= Seq::<OutputItemV>::empty());
            assert(out@.map_values(|o: OutputItem| o@) =~= after_message.map_values(
                |o: OutputItem| o@,
            ) + call_items(message_calls(*m), ids@.calls));
        },
    }
    out
}

/// The Responses API response to a Chat response, with identifiers given.
pub fn chat_to_responses_with_ids(
    chat_resp: ChatCompletionResponse,
    original_model: String,
    ids: ResponseIds,
) -> (r: ResponsesResponse)
    requires
        ids.calls@.len() >= tool_call_count(chat_resp),
    ensures
        r@ == response_of(chat_resp, original_model@, ids@),
{
    let output: Vec<OutputItem> = if chat_resp.choices.len() > 0 {
        choice_items(&chat_resp.choices[0], &ids)
    } else {
        let v: Vec<OutputItem> = Vec::new();
        assert(v@.map_values(|o: OutputItem| o@) =~= Seq::<OutputItemV>::empty());
        v
    };
    let incomplete_details: Option<Json> = if chat_resp.choices.len() > 0 {
        let f = &chat_resp.choices[0].finish_reason;
        if opt_str_eq(f, "content_filter") {
            Some(reason_json("content_filter"))
        } else if opt_str_eq(f, "length") {
            Some(reason_json("max_output_tokens"))
        } else {
            None
        }
    } else {
        None
    };
    let error: Option<Json> = match &chat_resp.error {
        Some(e) => {
            let code = match &e.code {
                Some(c) => c.clone(),
                None => String::new(),
            };
            let pairs = vec![
                (owned("code"), Json::String(code)),
                (owned("message"), Json::String(e.message.clone())),
            ];
            assert(fields_view(pairs@) =~= seq![
                ("code"@, JsonV::Str(
                    match e.code {
                        Some(c) => c@,
                        None => Seq::empty(),
                    },
                )),
                ("message"@, JsonV::Str(e.message@)),
            ]);
            Some(object(pairs))
        },
        None => None,
    };
    let usage = match &chat_resp.usage {
        Some(u) => Some(response_usage(u)),
        None => None,
    };
    let id = if has_prefix(chat_resp.id.as_str(), "resp_") {
        chat_resp.id.clone()
    } else {
        ids.response
    };
    let status = if error.is_some() {
        owned("failed")
    } else {
        owned("completed")
    };
    ResponsesResponse {
        id,
        object: owned("response"),
        created_at: chat_resp.created,
        status,
        model: original_model,
        output,
        usage,
        incomplete_details,
        error,
    }
}

/// The Responses API response to a Chat response, under fresh identifiers.
pub fn chat_to_responses(chat_resp: ChatCompletionResponse, original_model: String) -> (r: ResponsesResponse)
    ensures
        exists|ids: ResponseIdsV|
            ids_fresh(ids, tool_call_count(chat_resp)) && r@ == #[trigger] response_of(
                chat_resp,
                original_model@,
                ids,
            ),
{
    let n: usize = if chat_resp.choices.len() > 0 {
        match &chat_resp.choices[0].message.tool_calls {
            Some(v) => v.len(),
            None => 0,
        }
    } else {
        0
    };
    let mut calls: Vec<String> = Vec::new();
    let mut i: usize = 0;
    while i < n
        invariant
            i <= n,
            calls@.len() == i,
            forall|k: int| 0 <= k < i ==> is_id((#[trigger] calls@[k])@, "fc_"@),
        decreases n - i,
    {
        calls.push(new_id("fc_"));
        i = i + 1;
    }
    let ids = ResponseIds {
        response: new_id("resp_"),
        message: new_id("msg_"),
        reasoning: new_id("rs_"),
        calls,
    };
    let ghost iv = ids@;
    proof {
        assert forall|k: int| 0 <= k < n implies is_id(#[trigger] iv.calls[k], "fc_"@) by {
            assert(iv.calls[k] == calls@[k]@);
        }
    }
    let r = chat_to_responses_with_ids(chat_resp, original_model, ids);
    assert(ids_fresh(iv, tool_call_count(chat_resp)));
    r
}


// ─── Laws of the conversion ─────────────────────────────────────────────

/// A text answer gives one message, whose status follows the finish
/// reason (`incomplete` for `content_filter` and
/// `insufficient_system_resource`, else `completed`), and the response
/// says why it is incomplete for `length` and `content_filter`.
pub proof fn law_finish_reason(c: ChatCompletionResponse, model: Seq<char>, ids: ResponseIdsV)
    requires
        c.choices@.len() >= 1,
        c.choices@[0].message.content is Some,
        c.choices@[0].message.content->0@.len() > 0,
    ensures
        ({
            let r = response_of(c, model, ids);
            let fr = opt_view(c.choices@[0].finish_reason);
            let k = reasoning_items(c.choices@[0].message, ids.reasoning).len() as int;
            &&& 0 <= k < r.output.len()
            &&& r.output[k] matches OutputItemV::Message { status, .. } && status == finish_status(fr)
            &&& forall|j: int| 0 <= j < r.output.len() && j != k ==> !(#[trigger] r.output[j] is Message)
            &&& r.incomplete_details == (if fr == Some("length"@) {
                Some(reason_object("max_output_tokens"@))
            } else if fr == Some("content_filter"@) {
                Some(reason_object("content_filter"@))
            } else {
                None
            })
        }),
{
    let ch = c.choices@[0];
    let r = response_of(c, model, ids);
    let ri = reasoning_items(ch.message, ids.reasoning);
    let mi = message_items(ch.message, opt_view(ch.finish_reason), ids.message);
    let ci = call_items(message_calls(ch.message), ids.calls);
    assert(r.output == ri + mi + ci);
    assert(mi.len() == 1);
    let k = ri.len() as int;
    assert(r.output[k] == mi[0]);
    assert forall|j: int| 0 <= j < r.output.len() && j != k implies !(#[trigger] r.output[j] is Message) by {
        if j < k {
            assert(r.output[j] == ri[j]);
        } else {
            assert(r.output[j] == ci[j - k - 1]);
        }
    }
    reveal_strlit("length");
    reveal_strlit("content_filter");
    assert("length"@.len() == 6 && "content_filter"@.len() == 14);
}

/// An answer of tool calls alone, without text or reasoning, gives one
/// `function_call` item per call, in order, each completed, with the
/// call's id, name and arguments; with fresh identifiers, each item's id
/// is `fc_` and 32 hex digits.
pub proof fn law_tool_call_response(c: ChatCompletionResponse, model: Seq<char>, ids: ResponseIdsV)
    requires
        c.choices@.len() >= 1,
        c.choices@[0].message.content is None,
        c.choices@[0].message.tool_calls is Some,
        c.choices@[0].message.reasoning_content is None || c.choices@[0].message.reasoning_content->0@.len()
            == 0,
    ensures
        ({
            let r = response_of(c, model, ids);
            let tcs = calls_view(c.choices@[0].message.tool_calls->0@);
            &&& r.output.len() == tcs.len()
            &&& forall|i: int|
                0 <= i < tcs.len() ==> #[trigger] r.output[i] == OutputItemV::FunctionCall {
                    id: ids.calls[i],
                    call_id: tcs[i].id,
                    name: tcs[i].name,
                    arguments: tcs[i].arguments,
                    status: "completed"@,
                }
            &&& ids_fresh(ids, tool_call_count(c)) ==> forall|i: int|
                0 <= i < tcs.len() ==> is_id(#[trigger] ids.calls[i], "fc_"@)
        }),
{
    let ch = c.choices@[0];
    let r = response_of(c, model, ids);
    let ri = reasoning_items(ch.message, ids.reasoning);
    let mi = message_items(ch.message, opt_view(ch.finish_reason), ids.message);
    let ci = call_items(message_calls(ch.message), ids.calls);
    assert(ri.len() == 0);
    assert(mi.len() == 0);
    assert(r.output =~= ci);
}

/// Usage carries over: input, output and total tokens as given; reasoning
/// tokens from the completion details or 0; cached tokens from the prompt
/// details, else the cache hits and misses added up (each taken as 0 when
/// absent), cut to 32 bits as the counts are.
pub proof fn law_usage(c: ChatCompletionResponse, model: Seq<char>, ids: ResponseIdsV)
    requires
        c.usage is Some,
    ensures
        ({
            let u = c.usage->0;
            let r = response_of(c, model, ids);
            &&& r.usage is Some
            &&& r.usage->0.input_tokens == u.prompt_tokens
            &&& r.usage->0.output_tokens == u.completion_tokens
            &&& r.usage->0.total_tokens == u.total_tokens
            &&& r.usage->0.output_tokens_details.reasoning_tokens == (match json_u64_member(
                u.completion_tokens_details,
                "reasoning_tokens"@,
            ) {
                Some(v) => v,
                None => 0,
            }) as u32
            &&& r.usage->0.input_tokens_details.cached_tokens == (match json_u64_member(
                u.prompt_tokens_details,
                "cached_tokens"@,
            ) {
                Some(v) => v,
                None => (or_zero(u.prompt_cache_hit_tokens) + or_zero(u.prompt_cache_miss_tokens)) as u64,
            }) as u32
        }),
{
}

/// Reasoning comes first: whenever the first choice carries non-empty
/// reasoning, the first output item is a reasoning item whose one content
/// block is that text as `reasoning_text`, whatever else the answer holds
/// (text, tool calls, or neither); without reasoning no item is a
/// reasoning item.
pub proof fn law_reasoning_first(c: ChatCompletionResponse, model: Seq<char>, ids: ResponseIdsV)
    requires
        c.choices@.len() >= 1,
    ensures
        ({
            let r = response_of(c, model, ids);
            let m = c.choices@[0].message;
            &&& (m.reasoning_content matches Some(rc) && rc@.len() > 0) ==> {
                &&& r.output.len() >= 1
                &&& r.output[0] == OutputItemV::Reasoning {
                    id: ids.reasoning,
                    summary: Seq::empty(),
                    content: seq![
                        object_of(
                            seq![
                                ("type"@, JsonV::Str("reasoning_text"@)),
                                ("text"@, JsonV::Str(m.reasoning_content->0@)),
                            ],
                        ),
                    ],
                }
                &&& forall|j: int| 1 <= j < r.output.len() ==> !(#[trigger] r.output[j] is Reasoning)
            }
            &&& !(m.reasoning_content matches Some(rc) && rc@.len() > 0) ==> forall|j: int|
                0 <= j < r.output.len() ==> !(#[trigger] r.output[j] is Reasoning)
        }),
{
    let ch = c.choices@[0];
    let r = response_of(c, model, ids);
    let ri = reasoning_items(ch.message, ids.reasoning);
    let mi = message_items(ch.message, opt_view(ch.finish_reason), ids.message);
    let ci = call_items(message_calls(ch.message), ids.calls);
    assert(r.output == ri + mi + ci);
    assert forall|j: int| ri.len() <= j < r.output.len() implies !(#[trigger] r.output[j] is Reasoning) by {
        if j < ri.len() + mi.len() {
            assert(r.output[j] == mi[j - ri.len()]);
        } else {
            assert(r.output[j] == ci[j - ri.len() - mi.len()]);
        }
    }
    if ri.len() > 0 {
        assert(r.output[0] == ri[0]);
    }
}

} // verus!
