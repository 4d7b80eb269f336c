//! The decisions of a WebSocket session.
//!
//! A session keeps the conversation of its connection. Each
//! `response.create` event replaces it by the stored history of the named
//! previous response (or by nothing), appends the event's input, and runs
//! one streamed turn; the assistant's answer is appended afterwards. The
//! socket, the provider and the session store are driven from outside;
//! here is what is decided and what is sent.
use vstd::prelude::*;
use crate::config::{table_get, ResolvedConfig};
use crate::convert_request::{
    effort_level, instruction_parts, item_msgs, key_view, kept_tools, response_format_of,
    responses_to_chat, system_msgs, text_msg, thinking_on,
};
use crate::ids::{is_id, new_id};
use crate::items::{item_of, opt_string_member, string_member};
use crate::json::{copy_json, object, object_of, owned, str_eq};
use crate::jsonio::{json_of_text, json_text, parse_json_text, text_of_json};
use crate::models::{
    msgs_view, opt_json_view, opt_view, ChatCompletionRequest, ChatTool, ChatToolV, Input, MsgV,
    ResponsesRequest, Stop, StopV, ToolParam, ToolParamV,
};
use crate::server::{chat_url, js, jstr, pair, strings_view};
use crate::sse::{trim_range, trimmed};
use crate::streaming::{AccV, StreamState, StreamV, stream_wf};
use crate::value::{fields_view, group_json_view, seq_view, Json, JsonV, Number, NumberV};

verus! {

broadcast use group_json_view;

// ─── Reading an event's members as `serde` does ─────────────────────────

pub open spec fn opt_ref_view(v: Option<&Json>) -> Option<JsonV> {
    match v {
        Some(x) => Some(x@),
        None => None,
    }
}

/// An optional boolean: absent or `null` is `None`; another non-boolean fails.
pub open spec fn opt_bool_member(v: Option<JsonV>) -> Option<Option<bool>> {
    match v {
        None => Some(None),
        Some(JsonV::Null) => Some(None),
        Some(JsonV::Bool(b)) => Some(Some(b)),
        _ => None,
    }
}

/// An optional JSON value: absent or `null` is `None`.
pub open spec fn opt_value_member(v: Option<JsonV>) -> Option<JsonV> {
    match v {
        Some(JsonV::Null) => None,
        _ => v,
    }
}

/// The element at `i`, if there is one.
pub open spec fn element(a: Seq<JsonV>, i: int) -> Option<JsonV> {
    if 0 <= i < a.len() {
        Some(a[i])
    } else {
        None
    }
}

pub open spec fn tool_from_parts(
    tool_type: Option<Seq<char>>,
    name: Option<Option<Seq<char>>>,
    description: Option<Option<Seq<char>>>,
    parameters: Option<JsonV>,
    strict: Option<Option<bool>>,
) -> Option<ToolParamV> {
    match (tool_type, name, description, strict) {
        (Some(t), Some(n), Some(d), Some(s)) => Some(
            ToolParamV { tool_type: t, name: n, description: d, parameters, strict: s },
        ),
        _ => None,
    }
}

/// A tool definition as `serde` reads it: an object by member names
/// (others ignored), or an array of one to five members in field order
/// (`type`, `name`, `description`, `parameters`, `strict`).
pub open spec fn tool_of(v: JsonV) -> Option<ToolParamV> {
    match v {
        JsonV::Object(_) => tool_from_parts(
            string_member(v.get("type"@)),
            opt_string_member(v.get("name"@)),
            opt_string_member(v.get("description"@)),
            opt_value_member(v.get("parameters"@)),
            opt_bool_member(v.get("strict"@)),
        ),
        JsonV::Array(a) => if 1 <= a.len() <= 5 {
            tool_from_parts(
                string_member(element(a, 0)),
                opt_string_member(element(a, 1)),
                opt_string_member(element(a, 2)),
                opt_value_member(element(a, 3)),
                opt_bool_member(element(a, 4)),
            )
        } else {
            None
        },
        _ => None,
    }
}

/// The tools of the first `n` definitions, if each of them reads.
pub open spec fn tools_prefix(a: Seq<JsonV>, n: int) -> Option<Seq<ToolParamV>>
    decreases n,
{
    if n <= 0 {
        Some(Seq::empty())
    } else {
        match (tools_prefix(a, n - 1), tool_of(a[n - 1])) {
            (Some(t), Some(x)) => Some(t.push(x)),
            _ => None,
        }
    }
}

/// The `tools` member: an array whose every element reads as a tool.
pub open spec fn tools_member(v: Option<JsonV>) -> Option<Seq<ToolParamV>> {
    match v {
        Some(JsonV::Array(a)) => tools_prefix(a, a.len() as int),
        _ => None,
    }
}

pub open spec fn strings_prefix(a: Seq<JsonV>, n: int) -> Option<Seq<Seq<char>>>
    decreases n,
{
    if n <= 0 {
        Some(Seq::empty())
    } else {
        match (strings_prefix(a, n - 1), a[n - 1]) {
            (Some(t), JsonV::Str(s)) => Some(t.push(s)),
            _ => None,
        }
    }
}

/// The `stop` member: one string, or an array of strings.
pub open spec fn stop_member(v: Option<JsonV>) -> Option<StopV> {
    match v {
        Some(JsonV::Str(s)) => Some(StopV::Single(s)),
        Some(JsonV::Array(a)) => match strings_prefix(a, a.len() as int) {
            Some(t) => Some(StopV::Multiple(t)),
            None => None,
        },
        _ => None,
    }
}

pub open spec fn tools_view(t: Option<Vec<ToolParam>>) -> Option<Seq<ToolParamV>> {
    match t {
        Some(v) => Some(v@.map_values(|x: ToolParam| x@)),
        None => None,
    }
}

pub open spec fn stop_view(s: Option<Stop>) -> Option<StopV> {
    match s {
        Some(x) => Some(x@),
        None => None,
    }
}

pub open spec fn number_view(n: Option<Number>) -> Option<NumberV> {
    match n {
        Some(x) => Some(x@),
        None => None,
    }
}

/// A numeric member, as `as_f64` accepts it, taken as the number it is.
/// `temperature` and `top_p` reach the library already read as floats
/// (an integer such as `1` arrives as `1.0`): that reading is floating
/// point, which the program around the library does.
pub open spec fn number_member(v: JsonV) -> Option<NumberV> {
    match v {
        JsonV::Number(n) => Some(n),
        _ => None,
    }
}

/// A non-negative integer member cut to 32 bits (`as_u64` then `as u32`).
pub open spec fn u32_member(v: JsonV) -> Option<u32> {
    match v.as_u64() {
        Some(n) => Some(n as u32),
        None => None,
    }
}

fn opt_string_from(v: Option<&Json>) -> (r: Option<Option<String>>)
    ensures
        match r {
            Some(s) => opt_string_member(opt_ref_view(v)) == Some(opt_view(s)),
            None => opt_string_member(opt_ref_view(v)) is None,
        },
{
    match v {
        None => Some(None),
        Some(Json::Null) => Some(None),
        Some(Json::String(s)) => Some(Some(s.clone())),
        _ => None,
    }
}

fn opt_bool_from(v: Option<&Json>) -> (r: Option<Option<bool>>)
    ensures
        r == opt_bool_member(opt_ref_view(v)),
{
    match v {
        None => Some(None),
        Some(Json::Null) => Some(None),
        Some(Json::Bool(b)) => Some(Some(*b)),
        _ => None,
    }
}

fn opt_value_from(v: Option<&Json>) -> (r: Option<Json>)
    ensures
        opt_json_view(r) == opt_value_member(opt_ref_view(v)),
{
    match v {
        None => None,
        Some(Json::Null) => None,
        Some(x) => Some(copy_json(x)),
    }
}

fn string_from(v: Option<&Json>) -> (r: Option<String>)
    ensures
        opt_view(r) == string_member(opt_ref_view(v)),
{
    match v {
        Some(Json::String(s)) => Some(s.clone()),
        _ => None,
    }
}

pub(crate) fn element_of(a: &Vec<Json>, i: usize) -> (r: Option<&Json>)
    ensures
        opt_ref_view(r) == element(seq_view(a@), i as int),
{
    if i < a.len() {
        Some(&a[i])
    } else {
        None
    }
}

fn tool_from(
    tool_type: Option<String>,
    name: Option<Option<String>>,
    description: Option<Option<String>>,
    parameters: Option<Json>,
    strict: Option<Option<bool>>,
) -> (r: Option<ToolParam>)
    ensures
        match r {
            Some(t) => tool_from_parts(
                opt_view(tool_type),
                match name {
                    Some(n) => Some(opt_view(n)),
                    None => None,
                },
                match description {
                    Some(d) => Some(opt_view(d)),
                    None => None,
                },
                opt_json_view(parameters),
                strict,
            ) == Some(t@),
            None => tool_from_parts(
                opt_view(tool_type),
                match name {
                    Some(n) => Some(opt_view(n)),
                    None => None,
                },
                match description {
                    Some(d) => Some(opt_view(d)),
                    None => None,
                },
                opt_json_view(parameters),
                strict,
            ) is None,
        },
{
    match (tool_type, name, description, strict) {
        (Some(t), Some(n), Some(d), Some(s)) => Some(
            ToolParam { tool_type: t, name: n, description: d, parameters, strict: s },
        ),
        _ => None,
    }
}

/// Reads a tool definition as `serde` does (see [`tool_of`]).
pub fn tool_from_json(v: &Json) -> (r: Option<ToolParam>)
    ensures
        match r {
            Some(t) => tool_of(v@) == Some(t@),
            None => tool_of(v@) is None,
        },
{
    match v {
        Json::Object(_) => tool_from(
            string_from(v.get("type")),
            opt_string_from(v.get("name")),
            opt_string_from(v.get("description")),
            opt_value_from(v.get("parameters")),
            opt_bool_from(v.get("strict")),
        ),
        Json::Array(a) => {
            if 1 <= a.len() && a.len() <= 5 {
                tool_from(
                    string_from(element_of(a, 0)),
                    opt_string_from(element_of(a, 1)),
                    opt_string_from(element_of(a, 2)),
                    opt_value_from(element_of(a, 3)),
                    opt_bool_from(element_of(a, 4)),
                )
            } else {
                None
            }
        },
        _ => None,
    }
}

/// Reads the `tools` member as `serde` does: every definition must read.
pub fn tools_from_json(v: Option<&Json>) -> (r: Option<Vec<ToolParam>>)
    ensures
        tools_view(r) == tools_member(opt_ref_view(v)),
{
    match v {
        Some(Json::Array(a)) => {
            let ghost av = seq_view(a@);
            let mut out: Vec<ToolParam> = Vec::new();
            let mut i: usize = 0;
            while i < a.len()
                invariant
                    i <= a@.len(),
                    av == seq_view(a@),
                    opt_ref_view(v) == Some(JsonV::Array(av)),
                    tools_prefix(av, i as int) == Some(out@.map_values(|x: ToolParam| x@)),
                decreases a.len() - i,
            {
                assert(av[i as int] == a@[i as int]@);
                match tool_from_json(&a[i]) {
                    Some(t) => {
                        let ghost before = out@;
                        out.push(t);
                        assert(out@.map_values(|x: ToolParam| x@) =~= before.map_values(
                            |x: ToolParam| x@,
                        ).push(t@));
                    },
                    None => {
                        proof {
                            lemma_tools_prefix_none(av, i as int + 1, av.len() as int);
                        }
                        return None;
                    },
                }
                i = i + 1;
            }
            Some(out)
        },
        _ => None,
    }
}

proof fn lemma_tools_prefix_none(a: Seq<JsonV>, n: int, m: int)
    requires
        1 <= n <= m,
        tools_prefix(a, n) is None,
    ensures
        tools_prefix(a, m) is None,
    decreases m - n,
{
    if n < m {
        lemma_tools_prefix_none(a, n, m - 1);
    }
}

proof fn lemma_strings_prefix_none(a: Seq<JsonV>, n: int, m: int)
    requires
        1 <= n <= m,
        strings_prefix(a, n) is None,
    ensures
        strings_prefix(a, m) is None,
    decreases m - n,
{
    if n < m {
        lemma_strings_prefix_none(a, n, m - 1);
    }
}

/// Reads the `stop` member as `serde` does.
pub fn stop_from_json(v: Option<&Json>) -> (r: Option<Stop>)
    ensures
        stop_view(r) == stop_member(opt_ref_view(v)),
{
    match v {
        Some(Json::String(s)) => Some(Stop::Single(s.clone())),
        Some(Json::Array(a)) => {
            let ghost av = seq_view(a@);
            let mut out: Vec<String> = Vec::new();
            let mut i: usize = 0;
            while i < a.len()
                invariant
                    i <= a@.len(),
                    av == seq_view(a@),
                    opt_ref_view(v) == Some(JsonV::Array(av)),
                    strings_prefix(av, i as int) == Some(out@.map_values(|x: String| x@)),
                decreases a.len() - i,
            {
                assert(av[i as int] == a@[i as int]@);
                match &a[i] {
                    Json::String(s) => {
                        let ghost before = out@;
                        out.push(s.clone());
                        assert(out@.map_values(|x: String| x@) =~= before.map_values(
                            |x: String| x@,
                        ).push(s@));
                    },
                    _ => {
                        proof {
                            lemma_strings_prefix_none(av, i as int + 1, av.len() as int);
                        }
                        return None;
                    },
                }
                i = i + 1;
            }
            Some(Stop::Multiple(out))
        },
        _ => None,
    }
}

// ─── Frames from the client ─────────────────────────────────────────────

/// A client-to-server event, by its `type`.
#[derive(Debug)]
pub enum ClientEvent {
    /// `response.create`, with the whole event as its payload.
    ResponseCreate(Json),
    /// `response.cancel`.
    ResponseCancel,
    /// `ping`.
    Ping,
}

/// The `type` of an event, empty when it has none.
pub open spec fn event_type_of(v: JsonV) -> Seq<char> {
    match v.get_str("type"@) {
        Some(t) => t,
        None => Seq::empty(),
    }
}

impl ClientEvent {
    /// Reads an event by its `type` tag; `None` for another type.
    pub fn from_json(v: Json) -> (r: Option<ClientEvent>)
        ensures
            if event_type_of(v@) == "response.create"@ {
                r matches Some(ClientEvent::ResponseCreate(e)) && e@ == v@
            } else if event_type_of(v@) == "response.cancel"@ {
                r matches Some(ClientEvent::ResponseCancel)
            } else if event_type_of(v@) == "ping"@ {
                r matches Some(ClientEvent::Ping)
            } else {
                r is None
            },
    {
        let t = match v.get_str("type") {
            Some(t) => owned(t),
            None => String::new(),
        };
        if str_eq(t.as_str(), "response.create") {
            Some(ClientEvent::ResponseCreate(v))
        } else if str_eq(t.as_str(), "response.cancel") {
            Some(ClientEvent::ResponseCancel)
        } else if str_eq(t.as_str(), "ping") {
            Some(ClientEvent::Ping)
        } else {
            None
        }
    }
}

/// A text frame from the client.
#[derive(Debug)]
pub enum WsFrame {
    /// Not JSON: ignored.
    NotJson,
    /// JSON of another event type: ignored.
    Unrecognized,
    Event(ClientEvent),
}

pub fn classify_ws_message(text: &str) -> (r: WsFrame)
    ensures
        match json_of_text(text@) {
            None => r is NotJson,
            Some(v) => if event_type_of(v) == "response.create"@ {
                r matches WsFrame::Event(ClientEvent::ResponseCreate(e)) && e@ == v
            } else if event_type_of(v) == "response.cancel"@ {
                r matches WsFrame::Event(ClientEvent::ResponseCancel)
            } else if event_type_of(v) == "ping"@ {
                r matches WsFrame::Event(ClientEvent::Ping)
            } else {
                r is Unrecognized
            },
        },
{
    match parse_json_text(text) {
        None => WsFrame::NotJson,
        Some(v) => match ClientEvent::from_json(v) {
            Some(e) => WsFrame::Event(e),
            None => WsFrame::Unrecognized,
        },
    }
}

// ─── Error frames ───────────────────────────────────────────────────────

/// The error object of an error frame, shaped as an HTTP error body.
#[derive(Debug)]
pub struct Error {
    pub code: Option<String>,
    pub message: String,
    /// The error's `type`.
    pub error_type: Option<String>,
    pub param: Option<String>,
}

impl Error {
    pub const TYPE_INVALID_REQUEST: &'static str = "invalid_request_error";
}

/// A server-to-client error frame: an [`Error`] with `type: "error"` and an HTTP status.
#[derive(Debug)]
pub struct ErrorEvent {
    /// Always `error`.
    pub type_: String,
    pub status: u16,
    pub error: Error,
}

pub open spec fn error_object(e: Error) -> JsonV {
    object_of(
        seq![
            ("code"@, opt_str_json(opt_view(e.code))),
            ("message"@, js(e.message@)),
            ("type"@, opt_str_json(opt_view(e.error_type))),
            ("param"@, opt_str_json(opt_view(e.param))),
        ],
    )
}

pub open spec fn error_event_object(e: ErrorEvent) -> JsonV {
    object_of(
        seq![
            ("type"@, js(e.type_@)),
            ("status"@, JsonV::Number(NumberV::PosInt(e.status as u64))),
            ("error"@, error_object(e.error)),
        ],
    )
}

impl ErrorEvent {
    pub fn new(status: u16, error_type: &str, code: &str, message: String) -> (r: Self)
        ensures
            r.type_@ == "error"@,
            r.status == status,
            opt_view(r.error.code) == Some(code@),
            r.error.message@ == message@,
            opt_view(r.error.error_type) == Some(error_type@),
            r.error.param is None,
    {
        ErrorEvent {
            type_: owned("error"),
            status,
            error: Error { code: Some(owned(code)), message, error_type: Some(owned(error_type)), param: None },
        }
    }

    pub fn with_param(status: u16, error_type: &str, code: &str, message: String, param: &str) -> (r: Self)
        ensures
            r.type_@ == "error"@,
            r.status == status,
            opt_view(r.error.code) == Some(code@),
            r.error.message@ == message@,
            opt_view(r.error.error_type) == Some(error_type@),
            opt_view(r.error.param) == Some(param@),
    {
        ErrorEvent {
            type_: owned("error"),
            status,
            error: Error {
                code: Some(owned(code)),
                message,
                error_type: Some(owned(error_type)),
                param: Some(owned(param)),
            },
        }
    }

    /// The frame as JSON: every member, absent ones as `null`.
    pub fn to_json(&self) -> (r: Json)
        ensures
            r@ == error_event_object(*self),
    {
        let ef = vec![
            pair("code", opt_str_to_json(&self.error.code)),
            pair("message", Json::String(self.error.message.clone())),
            pair("type", opt_str_to_json(&self.error.error_type)),
            pair("param", opt_str_to_json(&self.error.param)),
        ];
        assert(fields_view(ef@) =~= seq![
            ("code"@, opt_str_json(opt_view(self.error.code))),
            ("message"@, js(self.error.message@)),
            ("type"@, opt_str_json(opt_view(self.error.error_type))),
            ("param"@, opt_str_json(opt_view(self.error.param))),
        ]);
        let inner = object(ef);
        let ghost iv = inner@;
        let f = vec![
            pair("type", Json::String(self.type_.clone())),
            pair("status", Json::Number(Number::PosInt(self.status as u64))),
            pair("error", inner),
        ];
        assert(fields_view(f@) =~= seq![
            ("type"@, js(self.type_@)),
            ("status"@, JsonV::Number(NumberV::PosInt(self.status as u64))),
            ("error"@, iv),
        ]);
        object(f)
    }

    /// The frame as the JSON text sent over the socket.
    pub fn to_json_string(&self) -> (r: String)
        ensures
            r@ == text_of_json(error_event_object(*self)),
    {
        json_text(&self.to_json())
    }
}

/// Whether a frame received while a turn streams cancels it: exactly the
/// cancel event, up to surrounding white space.
pub fn is_cancel_frame(text: &str) -> (r: bool)
    ensures
        r == (trimmed(text@) == "{\"type\":\"response.cancel\"}"@),
{
    let x = crate::json::chars_of(text);
    let t = trim_range(x.as_slice(), 0, x.len());
    assert(x@.subrange(0, x@.len() as int) =~= text@);
    str_eq(t.as_str(), "{\"type\":\"response.cancel\"}")
}

/// The previous response whose stored history a `response.create` continues.
pub fn ws_previous_id(event: &Json) -> (r: Option<String>)
    ensures
        opt_view(r) == event@.get_str("previous_response_id"@),
{
    match event.get_str("previous_response_id") {
        Some(s) => Some(owned(s)),
        None => None,
    }
}

// ─── Starting a turn ────────────────────────────────────────────────────

/// The model of a turn: the event's, else the first configured one.
pub open spec fn ws_model_of(event: JsonV, names: Seq<Seq<char>>) -> Seq<char> {
    match event.get_str("model"@) {
        Some(m) => m,
        None => if names.len() > 0 {
            names[0]
        } else {
            "gpt-5.5"@
        },
    }
}

/// Whether the turn generates; `generate: false` only warms up.
pub open spec fn ws_generate_of(event: JsonV) -> bool {
    match event.at("generate"@).as_bool() {
        Some(b) => b,
        None => true,
    }
}

pub open spec fn user_text_message(text: Seq<char>) -> JsonV {
    object_of(
        seq![
            ("type"@, js("message"@)),
            ("role"@, js("user"@)),
            ("content"@, JsonV::Array(
                seq![object_of(seq![("type"@, js("input_text"@)), ("text"@, js(text))])],
            )),
        ],
    )
}

/// The items a `response.create` adds: its input array, or its input
/// text as one user message.
pub open spec fn new_items_of(event: JsonV) -> Seq<JsonV> {
    match event.get("input"@) {
        Some(JsonV::Array(a)) => a,
        Some(JsonV::Str(s)) => seq![user_text_message(s)],
        _ => Seq::empty(),
    }
}

/// The conversation of a turn: the stored history of the previous
/// response when the event names one that is stored, then the new items.
pub open spec fn turn_history(event: JsonV, stored: Option<Seq<JsonV>>) -> Seq<JsonV> {
    let base = if event.get_str("previous_response_id"@) is Some {
        match stored {
            Some(h) => h,
            None => Seq::empty(),
        }
    } else {
        Seq::empty()
    };
    base + new_items_of(event)
}

fn user_text_message_json(text: &str) -> (r: Json)
    ensures
        r@ == user_text_message(text@),
{
    let bf = vec![pair("type", jstr("input_text")), pair("text", jstr(text))];
    assert(fields_view(bf@) =~= seq![("type"@, js("input_text"@)), ("text"@, js(text@))]);
    let block = object(bf);
    let ghost bv = block@;
    let content = vec![block];
    assert(seq_view(content@) =~= seq![bv]);
    let f = vec![pair("type", jstr("message")), pair("role", jstr("user")), pair("content", Json::Array(content))];
    assert(fields_view(f@) =~= seq![
        ("type"@, js("message"@)),
        ("role"@, js("user"@)),
        ("content"@, JsonV::Array(seq![bv])),
    ]);
    object(f)
}

/// The conversation of a turn (see [`turn_history`]); `stored` is what the
/// session store holds for the event's previous response, if anything.
pub fn ws_turn_history(event: &Json, stored: Option<Vec<Json>>) -> (r: Vec<Json>)
    ensures
        seq_view(r@) == turn_history(
            event@,
            match stored {
                Some(h) => Some(seq_view(h@)),
                None => None,
            },
        ),
{
    let mut history: Vec<Json> = match (event.get_str("previous_response_id"), stored) {
        (Some(_), Some(h)) => h,
        _ => Vec::new(),
    };
    let ghost h0 = seq_view(history@);
    match event.get("input") {
        Some(Json::Array(a)) => {
            let ghost av = seq_view(a@);
            let mut i: usize = 0;
            while i < a.len()
                invariant
                    i <= a@.len(),
                    av == seq_view(a@),
                    seq_view(history@) == h0 + av.take(i as int),
                decreases a.len() - i,
            {
                let ghost before = history@;
                history.push(copy_json(&a[i]));
                assert(seq_view(history@) =~= seq_view(before).push(a@[i as int]@));
                assert(av.take(i + 1) =~= av.take(i as int).push(av[i as int]));
                i = i + 1;
            }
            assert(av.take(a@.len() as int) =~= av);
        },
        Some(Json::String(s)) => {
            let ghost before = history@;
            history.push(user_text_message_json(s.as_str()));
            assert(seq_view(history@) =~= h0 + seq![user_text_message(s@)]);
        },
        _ => {
            assert(h0 + Seq::<JsonV>::empty() =~= h0);
        },
    }
    history
}

pub fn ws_model(event: &Json, model_names: &Vec<String>) -> (r: String)
    ensures
        r@ == ws_model_of(event@, strings_view(model_names@)),
{
    match event.get_str("model") {
        Some(m) => owned(m),
        None => if model_names.len() > 0 {
            model_names[0].clone()
        } else {
            owned("gpt-5.5")
        },
    }
}

pub fn ws_generate(event: &Json) -> (r: bool)
    ensures
        r == ws_generate_of(event@),
{
    match event.get("generate") {
        Some(Json::Bool(b)) => *b,
        _ => true,
    }
}

fn number_at(event: &Json, key: &str) -> (r: Option<Number>)
    ensures
        number_view(r) == number_member(event@.at(key@)),
{
    match event.get(key) {
        Some(Json::Number(n)) => Some(n.duplicate()),
        _ => None,
    }
}

fn u32_at(event: &Json, key: &str) -> (r: Option<u32>)
    ensures
        r == u32_member(event@.at(key@)),
{
    match event.get(key) {
        Some(v) => match v.as_u64() {
            Some(n) => Some(n as u32),
            None => None,
        },
        None => None,
    }
}

fn value_at(event: &Json, key: &str) -> (r: Option<Json>)
    ensures
        opt_json_view(r) == event@.get(key@),
{
    match event.get(key) {
        Some(v) => Some(copy_json(v)),
        None => None,
    }
}

/// The Responses request of a turn: the whole conversation as input,
/// streamed, with the event's settings read as `serde` reads them.
pub fn ws_request(event: &Json, model: String, history: &Vec<Json>) -> (r: ResponsesRequest)
    ensures
        r.model@ == model@,
        match r.input {
            Input::String(s) => history@.len() == 0 && s@.len() == 0,
            Input::Array(a) => history@.len() > 0 && seq_view(a@) == seq_view(history@),
        },
        opt_view(r.instructions) == event@.get_str("instructions"@),
        number_view(r.temperature) == number_member(event@.at("temperature"@)),
        number_view(r.top_p) == number_member(event@.at("top_p"@)),
        r.max_output_tokens == u32_member(event@.at("max_output_tokens"@)),
        tools_view(r.tools) == tools_member(event@.get("tools"@)),
        opt_json_view(r.tool_choice) == event@.get("tool_choice"@),
        r.stream == Some(true),
        stop_view(r.stop) == stop_member(event@.get("stop"@)),
        r.top_logprobs == u32_member(event@.at("top_logprobs"@)),
        r.previous_response_id is None,
        r.store is None,
        r.metadata is None,
        opt_json_view(r.reasoning) == event@.get("reasoning"@),
        opt_json_view(r.text) == event@.get("text"@),
{
    let input = if history.len() == 0 {
        Input::String(String::new())
    } else {
        Input::Array(crate::items::copy_elems(history))
    };
    let instructions = match event.get_str("instructions") {
        Some(s) => Some(owned(s)),
        None => None,
    };
    ResponsesRequest {
        model,
        input,
        instructions,
        temperature: number_at(event, "temperature"),
        top_p: number_at(event, "top_p"),
        max_output_tokens: u32_at(event, "max_output_tokens"),
        tools: tools_from_json(event.get("tools")),
        tool_choice: value_at(event, "tool_choice"),
        stream: Some(true),
        stop: stop_from_json(event.get("stop")),
        top_logprobs: u32_at(event, "top_logprobs"),
        previous_response_id: None,
        store: None,
        metadata: None,
        reasoning: value_at(event, "reasoning"),
        text: value_at(event, "text"),
    }
}

// ─── What is sent to the client ─────────────────────────────────────────

pub open spec fn opt_number_json(n: Option<NumberV>) -> JsonV {
    match n {
        Some(x) => JsonV::Number(x),
        None => JsonV::Null,
    }
}

pub open spec fn opt_u32_json(n: Option<u32>) -> JsonV {
    match n {
        Some(x) => JsonV::Number(NumberV::PosInt(x as u64)),
        None => JsonV::Null,
    }
}

pub open spec fn opt_str_json(s: Option<Seq<char>>) -> JsonV {
    match s {
        Some(x) => JsonV::Str(x),
        None => JsonV::Null,
    }
}

pub open spec fn opt_bool_json(b: Option<bool>) -> JsonV {
    match b {
        Some(x) => JsonV::Bool(x),
        None => JsonV::Null,
    }
}

pub open spec fn opt_value_json(v: Option<JsonV>) -> JsonV {
    match v {
        Some(x) => x,
        None => JsonV::Null,
    }
}

/// A tool definition written back as `serde` writes it: every member, absent ones as `null`.
pub open spec fn tool_json(t: ToolParamV) -> JsonV {
    object_of(
        seq![
            ("type"@, js(t.tool_type)),
            ("name"@, opt_str_json(t.name)),
            ("description"@, opt_str_json(t.description)),
            ("parameters"@, opt_value_json(t.parameters)),
            ("strict"@, opt_bool_json(t.strict)),
        ],
    )
}

pub open spec fn tools_json(t: Option<Seq<ToolParamV>>) -> JsonV {
    match t {
        Some(ts) => JsonV::Array(ts.map_values(|x: ToolParamV| tool_json(x))),
        None => JsonV::Null,
    }
}

/// The in-progress response that opens a streamed turn, with the settings it was asked with.
pub open spec fn base_response_json(
    id: Seq<char>,
    model: Seq<char>,
    now: NumberV,
    temperature: Option<NumberV>,
    top_p: Option<NumberV>,
    max_output_tokens: Option<u32>,
    instructions: Option<Seq<char>>,
    reasoning: Option<JsonV>,
    tools: Option<Seq<ToolParamV>>,
    tool_choice: Option<JsonV>,
    text: Option<JsonV>,
    top_logprobs: Option<u32>,
) -> JsonV {
    object_of(
        seq![
            ("id"@, js(id)),
            ("object"@, js("response"@)),
            ("created_at"@, JsonV::Number(now)),
            ("model"@, js(model)),
            ("status"@, js("in_progress"@)),
            ("output"@, JsonV::Array(Seq::empty())),
            ("temperature"@, opt_number_json(temperature)),
            ("top_p"@, opt_number_json(top_p)),
            ("max_output_tokens"@, opt_u32_json(max_output_tokens)),
            ("instructions"@, opt_str_json(instructions)),
            ("reasoning"@, opt_value_json(reasoning)),
            ("tools"@, tools_json(tools)),
            ("tool_choice"@, opt_value_json(tool_choice)),
            ("text"@, opt_value_json(text)),
            ("top_logprobs"@, opt_u32_json(top_logprobs)),
        ],
    )
}

/// The in-progress response of a turn, with the settings of its event.
pub open spec fn base_response_of(id: Seq<char>, model: Seq<char>, now: NumberV, event: JsonV) -> JsonV {
    base_response_json(
        id,
        model,
        now,
        number_member(event.at("temperature"@)),
        number_member(event.at("top_p"@)),
        u32_member(event.at("max_output_tokens"@)),
        event.get_str("instructions"@),
        event.get("reasoning"@),
        tools_member(event.get("tools"@)),
        event.get("tool_choice"@),
        event.get("text"@),
        u32_member(event.at("top_logprobs"@)),
    )
}

/// A lifecycle event carrying a response, numbered in the turn's sequence.
pub open spec fn numbered_event(ty: Seq<char>, seq: u64, response: JsonV) -> JsonV {
    object_of(
        seq![
            ("type"@, js(ty)),
            ("sequence_number"@, JsonV::Number(NumberV::PosInt(seq))),
            ("response"@, response),
        ],
    )
}

/// A warm-up event: an empty response with the time it was made.
pub open spec fn warmup_event(ty: Seq<char>, id: Seq<char>, model: Seq<char>, now: NumberV, status: Seq<char>) -> JsonV {
    object_of(
        seq![
            ("type"@, js(ty)),
            ("response"@, object_of(
                seq![
                    ("id"@, js(id)),
                    ("object"@, js("response"@)),
                    ("created_at"@, JsonV::Number(now)),
                    ("model"@, js(model)),
                    ("status"@, js(status)),
                    ("output"@, JsonV::Array(Seq::empty())),
                ],
            )),
        ],
    )
}

/// An error event: `{"type": "error", "error": {"message": ...}}`.
pub open spec fn error_event(message: Seq<char>) -> JsonV {
    object_of(seq![("type"@, js("error"@)), ("error"@, object_of(seq![("message"@, js(message))]))])
}

/// The error event for a provider's failed answer.
pub open spec fn downstream_error_event(status: u16, body: Seq<char>) -> JsonV {
    object_of(
        seq![
            ("type"@, js("error"@)),
            ("error"@, object_of(
                seq![
                    ("type"@, js("downstream_error"@)),
                    ("message"@, js(crate::server::downstream_message(status, body))),
                ],
            )),
        ],
    )
}

fn opt_number_to_json(n: &Option<Number>) -> (r: Json)
    ensures
        r@ == opt_number_json(number_view(*n)),
{
    match n {
        Some(x) => Json::Number(x.duplicate()),
        None => Json::Null,
    }
}

fn opt_u32_to_json(n: Option<u32>) -> (r: Json)
    ensures
        r@ == opt_u32_json(n),
{
    match n {
        Some(x) => Json::Number(Number::PosInt(x as u64)),
        None => Json::Null,
    }
}

fn opt_str_to_json(s: &Option<String>) -> (r: Json)
    ensures
        r@ == opt_str_json(opt_view(*s)),
{
    match s {
        Some(x) => Json::String(x.clone()),
        None => Json::Null,
    }
}

fn opt_value_to_json(v: &Option<Json>) -> (r: Json)
    ensures
        r@ == opt_value_json(opt_json_view(*v)),
{
    match v {
        Some(x) => copy_json(x),
        None => Json::Null,
    }
}

fn opt_bool_to_json(b: Option<bool>) -> (r: Json)
    ensures
        r@ == opt_bool_json(b),
{
    match b {
        Some(x) => Json::Bool(x),
        None => Json::Null,
    }
}

/// Writes a tool definition back as JSON (see [`tool_json`]).
pub fn tool_to_json(t: &ToolParam) -> (r: Json)
    ensures
        r@ == tool_json(t@),
{
    let f = vec![
        pair("type", Json::String(t.tool_type.clone())),
        pair("name", opt_str_to_json(&t.name)),
        pair("description", opt_str_to_json(&t.description)),
        pair("parameters", opt_value_to_json(&t.parameters)),
        pair("strict", opt_bool_to_json(t.strict)),
    ];
    assert(fields_view(f@) =~= seq![
        ("type"@, js(t@.tool_type)),
        ("name"@, opt_str_json(t@.name)),
        ("description"@, opt_str_json(t@.description)),
        ("parameters"@, opt_value_json(t@.parameters)),
        ("strict"@, opt_bool_json(t@.strict)),
    ]);
    object(f)
}

fn tools_to_json(t: &Option<Vec<ToolParam>>) -> (r: Json)
    ensures
        r@ == tools_json(tools_view(*t)),
{
    match t {
        Some(ts) => {
            let ghost tv = ts@.map_values(|x: ToolParam| x@);
            let mut out: Vec<Json> = Vec::new();
            let mut i: usize = 0;
            while i < ts.len()
                invariant
                    i <= ts@.len(),
                    tv == ts@.map_values(|x: ToolParam| x@),
                    seq_view(out@) == tv.take(i as int).map_values(|x: ToolParamV| tool_json(x)),
                decreases ts.len() - i,
            {
                let ghost before = out@;
                out.push(tool_to_json(&ts[i]));
                assert(tv.take(i + 1) =~= tv.take(i as int).push(ts@[i as int]@));
                assert(seq_view(out@) =~= seq_view(before).push(tool_json(ts@[i as int]@)));
                assert(tv.take(i + 1).map_values(|x: ToolParamV| tool_json(x)) =~= tv.take(
                    i as int,
                ).map_values(|x: ToolParamV| tool_json(x)).push(tool_json(ts@[i as int]@)));
                i = i + 1;
            }
            assert(tv.take(ts@.len() as int) =~= tv);
            Json::Array(out)
        },
        None => Json::Null,
    }
}

/// The in-progress response that opens a streamed turn.
pub fn base_response(id: &str, model: &str, now: &Number, req: &ResponsesRequest) -> (r: Json)
    ensures
        r@ == base_response_json(
            id@,
            model@,
            now@,
            number_view(req.temperature),
            number_view(req.top_p),
            req.max_output_tokens,
            opt_view(req.instructions),
            opt_json_view(req.reasoning),
            tools_view(req.tools),
            opt_json_view(req.tool_choice),
            opt_json_view(req.text),
            req.top_logprobs,
        ),
{
    let e: Vec<Json> = Vec::new();
    assert(seq_view(e@) =~= Seq::<JsonV>::empty());
    let f = vec![
        pair("id", jstr(id)),
        pair("object", jstr("response")),
        pair("created_at", Json::Number(now.duplicate())),
        pair("model", jstr(model)),
        pair("status", jstr("in_progress")),
        pair("output", Json::Array(e)),
        pair("temperature", opt_number_to_json(&req.temperature)),
        pair("top_p", opt_number_to_json(&req.top_p)),
        pair("max_output_tokens", opt_u32_to_json(req.max_output_tokens)),
        pair("instructions", opt_str_to_json(&req.instructions)),
        pair("reasoning", opt_value_to_json(&req.reasoning)),
        pair("tools", tools_to_json(&req.tools)),
        pair("tool_choice", opt_value_to_json(&req.tool_choice)),
        pair("text", opt_value_to_json(&req.text)),
        pair("top_logprobs", opt_u32_to_json(req.top_logprobs)),
    ];
    assert(fields_view(f@) =~= seq![
        ("id"@, js(id@)),
        ("object"@, js("response"@)),
        ("created_at"@, JsonV::Number(now@)),
        ("model"@, js(model@)),
        ("status"@, js("in_progress"@)),
        ("output"@, JsonV::Array(Seq::empty())),
        ("temperature"@, opt_number_json(number_view(req.temperature))),
        ("top_p"@, opt_number_json(number_view(req.top_p))),
        ("max_output_tokens"@, opt_u32_json(req.max_output_tokens)),
        ("instructions"@, opt_str_json(opt_view(req.instructions))),
        ("reasoning"@, opt_value_json(opt_json_view(req.reasoning))),
        ("tools"@, tools_json(tools_view(req.tools))),
        ("tool_choice"@, opt_value_json(opt_json_view(req.tool_choice))),
        ("text"@, opt_value_json(opt_json_view(req.text))),
        ("top_logprobs"@, opt_u32_json(req.top_logprobs)),
    ]);
    object(f)
}

pub fn numbered_event_json(ty: &str, seq: u64, response: Json) -> (r: Json)
    ensures
        r@ == numbered_event(ty@, seq, response@),
{
    let ghost rv = response@;
    let f = vec![
        pair("type", jstr(ty)),
        pair("sequence_number", Json::Number(Number::PosInt(seq))),
        pair("response", response),
    ];
    assert(fields_view(f@) =~= seq![
        ("type"@, js(ty@)),
        ("sequence_number"@, JsonV::Number(NumberV::PosInt(seq))),
        ("response"@, rv),
    ]);
    object(f)
}

pub fn warmup_event_json(ty: &str, id: &str, model: &str, now: &Number, status: &str) -> (r: Json)
    ensures
        r@ == warmup_event(ty@, id@, model@, now@, status@),
{
    let e: Vec<Json> = Vec::new();
    assert(seq_view(e@) =~= Seq::<JsonV>::empty());
    let rf = vec![
        pair("id", jstr(id)),
        pair("object", jstr("response")),
        pair("created_at", Json::Number(now.duplicate())),
        pair("model", jstr(model)),
        pair("status", jstr(status)),
        pair("output", Json::Array(e)),
    ];
    assert(fields_view(rf@) =~= seq![
        ("id"@, js(id@)),
        ("object"@, js("response"@)),
        ("created_at"@, JsonV::Number(now@)),
        ("model"@, js(model@)),
        ("status"@, js(status@)),
        ("output"@, JsonV::Array(Seq::empty())),
    ]);
    let resp = object(rf);
    let ghost rv = resp@;
    let f = vec![pair("type", jstr(ty)), pair("response", resp)];
    assert(fields_view(f@) =~= seq![("type"@, js(ty@)), ("response"@, rv)]);
    object(f)
}

pub fn error_event_json(message: &str) -> (r: Json)
    ensures
        r@ == error_event(message@),
{
    let mf = vec![pair("message", jstr(message))];
    assert(fields_view(mf@) =~= seq![("message"@, js(message@))]);
    let inner = object(mf);
    let ghost iv = inner@;
    let f = vec![pair("type", jstr("error")), pair("error", inner)];
    assert(fields_view(f@) =~= seq![("type"@, js("error"@)), ("error"@, iv)]);
    object(f)
}

/// The error event for a provider's failed answer to a turn.
pub fn downstream_error_event_json(status: u16, body: &str) -> (r: Json)
    ensures
        r@ == downstream_error_event(status, body@),
{
    let mut m = owned("Downstream returned ");
    let st = crate::text::decimal_string(status as u64);
    m.append(st.as_str());
    m.append(": ");
    m.append(body);
    let ghost mv = m@;
    let ef = vec![pair("type", jstr("downstream_error")), pair("message", Json::String(m))];
    assert(fields_view(ef@) =~= seq![("type"@, js("downstream_error"@)), ("message"@, js(mv))]);
    let inner = object(ef);
    let ghost iv = inner@;
    let f = vec![pair("type", jstr("error")), pair("error", inner)];
    assert(fields_view(f@) =~= seq![("type"@, js("error"@)), ("error"@, iv)]);
    object(f)
}

/// The error event when the provider cannot be reached; `detail` is the
/// transport's own account of it.
pub fn unreachable_event_json(detail: &str) -> (r: Json)
    ensures
        r@ == error_event("Downstream error: "@ + detail@),
{
    let mut m = owned("Downstream error: ");
    m.append(detail);
    error_event_json(m.as_str())
}

/// A stream event numbered for the socket: its `sequence_number` set.
pub fn with_sequence_number(event: Json, seq: u64) -> (r: Json)
    requires
        event@ is Object || event@ is Null,
    ensures
        r@ == JsonV::Object(crate::json::fields_insert(
            match event@ {
                JsonV::Object(f) => f,
                _ => Seq::empty(),
            },
            "sequence_number"@,
            JsonV::Number(NumberV::PosInt(seq)),
        )),
{
    let mut f = match event {
        Json::Object(f) => f,
        _ => Vec::new(),
    };
    crate::json::insert_field(&mut f, owned("sequence_number"), Json::Number(Number::PosInt(seq)));
    Json::Object(f)
}

// ─── A turn ─────────────────────────────────────────────────────────────

/// What a turn does once its conversation is known.
#[derive(Debug)]
pub enum WsTurn {
    /// The model is not configured: this error event is sent.
    UnknownModel(Json),
    /// `generate: false`: the two events are sent, nothing is asked.
    Warmup { response_id: String, created: Json, completed: Json },
    /// A streamed turn.
    Stream(StreamTurn),
}

/// A turn streamed from the provider.
#[derive(Debug)]
pub struct StreamTurn {
    pub url: String,
    pub api_key: String,
    pub chat: ChatCompletionRequest,
    /// `response.created`, numbered 0.
    pub created: Json,
    /// `response.in_progress`, numbered 1.
    pub in_progress: Json,
    /// The stream's state, already started: the two events above are sent by hand.
    pub state: StreamState,
}

/// The Chat messages of a conversation (an empty one is sent as empty text).
pub open spec fn history_msgs(history: Seq<JsonV>, instructions: Option<Seq<char>>, key: Option<Seq<u8>>) -> Seq<MsgV> {
    if history.len() == 0 {
        system_msgs(instruction_parts(instructions)) + seq![text_msg("user"@, Seq::empty())]
    } else {
        item_msgs(history.map_values(|v: JsonV| item_of(v)), instructions, key)
    }
}

pub open spec fn chat_tools_view(t: Option<Vec<ChatTool>>) -> Option<Seq<ChatToolV>> {
    match t {
        Some(v) => Some(v@.map_values(|x: ChatTool| x@)),
        None => None,
    }
}

/// The Chat request of a turn: the conversation and the event's settings,
/// converted as for `/v1/responses`, streamed to the provider's model.
pub open spec fn ws_chat(
    c: ChatCompletionRequest,
    event: JsonV,
    history: Seq<JsonV>,
    downstream_model: Seq<char>,
    allow: Seq<Seq<char>>,
    key: Option<Seq<u8>>,
) -> bool {
    let reasoning = event.get("reasoning"@);
    let top = u32_member(event.at("top_logprobs"@));
    &&& c.model@ == downstream_model
    &&& msgs_view(c.messages@) == history_msgs(history, event.get_str("instructions"@), key)
    &&& number_view(c.temperature) == number_member(event.at("temperature"@))
    &&& number_view(c.top_p) == number_member(event.at("top_p"@))
    &&& c.max_tokens == u32_member(event.at("max_output_tokens"@))
    &&& chat_tools_view(c.tools) == match tools_member(event.get("tools"@)) {
        Some(ts) => Some(kept_tools(ts, allow)),
        None => None,
    }
    &&& opt_json_view(c.tool_choice) == event.get("tool_choice"@)
    &&& c.stream == Some(true)
    &&& stop_view(c.stop) == stop_member(event.get("stop"@))
    &&& opt_json_view(c.response_format) == response_format_of(event.get("text"@))
    &&& opt_view(c.reasoning_effort) == effort_level(reasoning)
    &&& (c.thinking is Some) == thinking_on(reasoning)
    &&& (c.thinking is Some ==> c.thinking->0.thinking_type@ == "enabled"@)
    &&& c.logprobs == if thinking_on(reasoning) {
        None
    } else {
        match top {
            Some(_) => Some(true),
            None => None,
        }
    }
    &&& c.top_logprobs == if thinking_on(reasoning) {
        None
    } else {
        top
    }
}

/// A stream state as a turn starts it: nothing received, the lifecycle
/// events already sent.
pub open spec fn started_stream(s: StreamV, model: Seq<char>) -> bool {
    &&& is_id(s.response_id, "resp_"@)
    &&& is_id(s.msg_id, "msg_"@)
    &&& s.model == model
    &&& s.text.len() == 0
    &&& s.reasoning.len() == 0
    &&& s.calls.len() == 0
    &&& s.has_started
    &&& s.created == 0
    &&& !s.message_added
    &&& !s.reasoning_added
    &&& s.next_output_index == 0
    &&& s.usage is None
    &&& stream_wf(s)
}

/// Starts a `response.create` turn: builds its conversation from the
/// stored history (`stored`, looked up by the event's previous response)
/// and the event's input, and decides what is sent. `now` is the time,
/// in seconds, that the responses are stamped with.
pub fn begin_ws_turn(
    event: &Json,
    stored: Option<Vec<Json>>,
    config: &ResolvedConfig,
    compact_key: Option<&[u8; 32]>,
    now: Number,
) -> (r: (Vec<Json>, WsTurn))
    ensures
        seq_view(r.0@) == turn_history(
            event@,
            match stored {
                Some(h) => Some(seq_view(h@)),
                None => None,
            },
        ),
        ({
            let model = ws_model_of(event@, strings_view(config.model_names@));
            match table_get(config.models@, model) {
                None => r.1 matches WsTurn::UnknownModel(e) && e@ == error_event("Unknown model: "@ + model),
                Some(p) => if !ws_generate_of(event@) {
                    r.1 matches WsTurn::Warmup { response_id, created, completed } && is_id(
                        response_id@,
                        "resp_"@,
                    ) && created@ == warmup_event(
                        "response.created"@,
                        response_id@,
                        model,
                        now@,
                        "in_progress"@,
                    ) && completed@ == warmup_event(
                        "response.completed"@,
                        response_id@,
                        model,
                        now@,
                        "completed"@,
                    )
                } else {
                    r.1 matches WsTurn::Stream(t) && {
                        let base = base_response_of(t.state@.response_id, model, now@, event@);
                        &&& t.url@ == p.base_url + "/chat/completions"@
                        &&& t.api_key@ == p.api_key
                        &&& ws_chat(
                            t.chat,
                            event@,
                            seq_view(r.0@),
                            p.downstream_model,
                            strings_view(config.tool_type_allowlist@),
                            key_view(compact_key),
                        )
                        &&& started_stream(t.state@, model)
                        &&& t.created@ == numbered_event("response.created"@, 0, base)
                        &&& t.in_progress@ == numbered_event("response.in_progress"@, 1, base)
                    }
                },
            }
        }),
{
    let history = ws_turn_history(event, stored);
    let model = ws_model(event, &config.model_names);
    let provider = match config.models.get(model.as_str()) {
        Some(p) => p,
        None => {
            let mut m = owned("Unknown model: ");
            m.append(model.as_str());
            return (history, WsTurn::UnknownModel(error_event_json(m.as_str())));
        },
    };
    if !ws_generate(event) {
        let response_id = new_id("resp_");
        let created = warmup_event_json("response.created", response_id.as_str(), model.as_str(), &now, "in_progress");
        let completed = warmup_event_json("response.completed", response_id.as_str(), model.as_str(), &now, "completed");
        return (history, WsTurn::Warmup { response_id, created, completed });
    }
    let msg_id = new_id("msg_");
    let response_id = new_id("resp_");
    let req = ws_request(event, model.clone(), &history);
    let base = base_response(response_id.as_str(), model.as_str(), &now, &req);
    let ghost bv = base@;
    let created = numbered_event_json("response.created", 0, copy_json(&base));
    let in_progress = numbered_event_json("response.in_progress", 1, base);
    let ghost hv = seq_view(history@);
    proof {
        if req.input is String {
            assert(req.input->String_0@ =~= Seq::<char>::empty());
        }
    }
    assert(crate::convert_request::chat_msgs(req.input, opt_view(req.instructions), key_view(compact_key))
        == history_msgs(hv, event@.get_str("instructions"@), key_view(compact_key)));
    let mut chat = responses_to_chat(req, config.tool_type_allowlist.as_slice(), compact_key);
    chat.model = provider.downstream_model.clone();
    chat.stream = Some(true);
    let mut state = StreamState::new(response_id, msg_id, model);
    state.has_started = true;
    let turn = StreamTurn {
        url: chat_url(provider.base_url.as_str()),
        api_key: provider.api_key.clone(),
        chat,
        created,
        in_progress,
        state,
    };
    (history, WsTurn::Stream(turn))
}

// ─── After a turn ───────────────────────────────────────────────────────

/// The reasoning of a turn, as an input item of the next one.
pub open spec fn reasoning_item(id: Seq<char>, text: Seq<char>) -> JsonV {
    object_of(
        seq![
            ("type"@, js("reasoning"@)),
            ("id"@, js(id)),
            ("summary"@, JsonV::Array(Seq::empty())),
            ("content"@, JsonV::Array(
                seq![object_of(seq![("type"@, js("reasoning_text"@)), ("text"@, js(text))])],
            )),
        ],
    )
}

/// The assistant's text of a turn, as an input item of the next one.
pub open spec fn assistant_item(text: Seq<char>) -> JsonV {
    object_of(
        seq![
            ("type"@, js("message"@)),
            ("role"@, js("assistant"@)),
            ("content"@, JsonV::Array(
                if text.len() == 0 {
                    Seq::empty()
                } else {
                    seq![object_of(seq![("type"@, js("input_text"@)), ("text"@, js(text))])]
                },
            )),
        ],
    )
}

pub open spec fn call_item(c: AccV) -> JsonV {
    object_of(
        seq![
            ("type"@, js("function_call"@)),
            ("call_id"@, js(c.id)),
            ("name"@, js(c.name)),
            ("arguments"@, js(c.arguments)),
        ],
    )
}

/// The tool calls of a turn that have an id, in order.
pub open spec fn call_items(calls: Seq<AccV>) -> Seq<JsonV>
    decreases calls.len(),
{
    if calls.len() == 0 {
        Seq::empty()
    } else {
        call_items(calls.drop_last()) + if calls.last().id.len() > 0 {
            seq![call_item(calls.last())]
        } else {
            Seq::empty()
        }
    }
}

/// What a finished turn adds to the conversation: its reasoning, if any,
/// under the id `reasoning_id`; the assistant's message; its tool calls.
pub open spec fn turn_items(s: StreamV, reasoning_id: Seq<char>) -> Seq<JsonV> {
    (if s.reasoning.len() > 0 {
        seq![reasoning_item(reasoning_id, s.reasoning)]
    } else {
        Seq::empty()
    }) + seq![assistant_item(s.text)] + call_items(s.calls)
}

fn text_block(ty: &str, text: &str) -> (r: Json)
    ensures
        r@ == object_of(seq![("type"@, js(ty@)), ("text"@, js(text@))]),
{
    let f = vec![pair("type", jstr(ty)), pair("text", jstr(text))];
    assert(fields_view(f@) =~= seq![("type"@, js(ty@)), ("text"@, js(text@))]);
    object(f)
}

/// Appends what a finished turn adds to the conversation (see [`turn_items`]).
pub fn append_turn_items(history: &mut Vec<Json>, state: &StreamState, reasoning_id: &str)
    ensures
        seq_view(final(history)@) == seq_view(old(history)@) + turn_items(state@, reasoning_id@),
{
    let ghost h0 = seq_view(history@);
    let ghost sv = state@;
    if !state.reasoning_content.as_str().is_empty() {
        let block = text_block("reasoning_text", state.reasoning_content.as_str());
        let ghost bv = block@;
        let e: Vec<Json> = Vec::new();
        assert(seq_view(e@) =~= Seq::<JsonV>::empty());
        let content = vec![block];
        assert(seq_view(content@) =~= seq![bv]);
        let f = vec![
            pair("type", jstr("reasoning")),
            pair("id", jstr(reasoning_id)),
            pair("summary", Json::Array(e)),
            pair("content", Json::Array(content)),
        ];
        assert(fields_view(f@) =~= seq![
            ("type"@, js("reasoning"@)),
            ("id"@, js(reasoning_id@)),
            ("summary"@, JsonV::Array(Seq::empty())),
            ("content"@, JsonV::Array(seq![bv])),
        ]);
        history.push(object(f));
    }
    let ghost h1 = seq_view(history@);
    assert(h1 == h0 + (if sv.reasoning.len() > 0 {
        seq![reasoning_item(reasoning_id@, sv.reasoning)]
    } else {
        Seq::<JsonV>::empty()
    }));
    let mut content: Vec<Json> = Vec::new();
    if !state.accumulated_text.as_str().is_empty() {
        content.push(text_block("input_text", state.accumulated_text.as_str()));
    }
    let ghost cv = seq_view(content@);
    assert(cv =~= if sv.text.len() == 0 {
        Seq::<JsonV>::empty()
    } else {
        seq![object_of(seq![("type"@, js("input_text"@)), ("text"@, js(sv.text))])]
    });
    let f = vec![pair("type", jstr("message")), pair("role", jstr("assistant")), pair("content", Json::Array(content))];
    assert(fields_view(f@) =~= seq![
        ("type"@, js("message"@)),
        ("role"@, js("assistant"@)),
        ("content"@, JsonV::Array(cv)),
    ]);
    history.push(object(f));
    let ghost h2 = seq_view(history@);
    assert(h2 =~= h1.push(assistant_item(sv.text)));
    let mut i: usize = 0;
    while i < state.tool_calls.len()
        invariant
            i <= sv.calls.len(),
            sv == state@,
            seq_view(history@) == h2 + call_items(sv.calls.take(i as int)),
        decreases state.tool_calls.len() - i,
    {
        let tc = &state.tool_calls[i];
        assert(sv.calls[i as int] == tc@);
        assert(sv.calls.take(i + 1).drop_last() =~= sv.calls.take(i as int));
        let ghost before = seq_view(history@);
        if !tc.id.as_str().is_empty() {
            let f = vec![
                pair("type", jstr("function_call")),
                pair("call_id", jstr(tc.id.as_str())),
                pair("name", jstr(tc.name.as_str())),
                pair("arguments", jstr(tc.arguments.as_str())),
            ];
            assert(fields_view(f@) =~= seq![
                ("type"@, js("function_call"@)),
                ("call_id"@, js(tc@.id)),
                ("name"@, js(tc@.name)),
                ("arguments"@, js(tc@.arguments)),
            ]);
            history.push(object(f));
            assert(seq_view(history@) =~= before.push(call_item(tc@)));
            assert(h2 + call_items(sv.calls.take(i + 1)) =~= h2 + call_items(sv.calls.take(i as int)) + seq![call_item(tc@)]);
        } else {
            assert(h2 + call_items(sv.calls.take(i + 1)) =~= h2 + call_items(sv.calls.take(i as int)));
        }
        i = i + 1;
    }
    assert(sv.calls.take(sv.calls.len() as int) =~= sv.calls);
    assert(seq_view(history@) =~= h0 + turn_items(sv, reasoning_id@));
}

/// Appends a finished turn to the conversation, its reasoning under a new `rs_` id.
pub fn record_turn(history: &mut Vec<Json>, state: &StreamState)
    ensures
        exists|id: Seq<char>|
            is_id(id, "rs_"@) && seq_view(final(history)@) == seq_view(old(history)@) + #[trigger] turn_items(
                state@,
                id,
            ),
{
    let id = new_id("rs_");
    append_turn_items(history, state, id.as_str());
}

} // verus!
