//! Responses API request → Chat Completions request.
//!
//! The `input` items become Chat messages in order. System and developer
//! messages, and compaction items, that come before the first user message
//! are merged, after the `instructions`, into one leading system message.
//! Consecutive function calls become one assistant message with tool calls;
//! their outputs follow it as tool messages. Reasoning is carried on the
//! assistant messages of its turn.
use vstd::prelude::*;
use crate::crypto::{decrypt, decrypted};
use crate::items::{item_of, parse_input_item};
use crate::json::{copy_json, object, object_of, owned, str_eq};
use crate::text::{join, join_strings};
use crate::value::{group_json_view, json_view, seq_view, Json, JsonV};
use crate::models::{
    calls_view, msgs_view, opt_json_view, opt_view, BlockV, ChatCompletionRequest, ChatFunctionCall,
    ChatFunctionDef, ChatMessage, ChatMessageContent, ChatTool, ChatToolCall, ChatToolV,
    FunctionCallItemV, FunctionCallOutputItemV, FunctionCallOutputValue, Input, InputContentBlock,
    InputItem, InputItemV, InputMessage, InputMessageV, InputReasoning, InputReasoningV, MessageRole,
    MsgV, OutputValueV, ResponsesRequest, ThinkingConfig, ToolCallV, ToolParam, ToolParamV,
};

verus! {

broadcast use group_json_view;

// ─── What the conversion produces ───────────────────────────────────────

/// The texts of the `input_text` blocks.
pub open spec fn block_texts(blocks: Seq<BlockV>) -> Seq<Seq<char>>
    decreases blocks.len(),
{
    if blocks.len() == 0 {
        Seq::empty()
    } else {
        let rest = block_texts(blocks.drop_last());
        match blocks.last() {
            BlockV::Text(t) => rest.push(t),
            _ => rest,
        }
    }
}

/// The text of a message: its `input_text` blocks, one per line.
pub open spec fn content_text(blocks: Seq<BlockV>) -> Seq<char> {
    join(block_texts(blocks), "\n"@)
}

/// The `text` of each JSON block whose `type` is `ty` and whose `text` is a string.
pub open spec fn typed_texts(vs: Seq<JsonV>, ty: Seq<char>) -> Seq<Seq<char>>
    decreases vs.len(),
{
    if vs.len() == 0 {
        Seq::empty()
    } else {
        let rest = typed_texts(vs.drop_last(), ty);
        let v = vs.last();
        if v.get_str("type"@) == Some(ty) && v.get_str("text"@) is Some {
            rest.push(v.get_str("text"@)->0)
        } else {
            rest
        }
    }
}

/// The text of a reasoning item: its `reasoning_text` content when there is
/// any, else its `summary_text` summary, one block per line.
pub open spec fn reasoning_text(r: InputReasoningV) -> Seq<char> {
    let from_content = typed_texts(r.content, "reasoning_text"@);
    if from_content.len() > 0 {
        join(from_content, "\n"@)
    } else {
        join(typed_texts(r.summary, "summary_text"@), "\n"@)
    }
}

/// The text of a function call output.
pub open spec fn output_text(o: OutputValueV) -> Seq<char> {
    match o {
        OutputValueV::Text(s) => s,
        OutputValueV::Array(a) => join(typed_texts(a, "input_text"@), "\n"@),
    }
}

pub open spec fn key_view(k: Option<&[u8; 32]>) -> Option<Seq<u8>> {
    match k {
        Some(k) => Some(k@),
        None => None,
    }
}

/// A compaction summary: decrypted when a key is set and decryption works,
/// else taken as it stands.
pub open spec fn summary_text(key: Option<Seq<u8>>, enc: Seq<char>) -> Seq<char> {
    match key {
        Some(k) => match decrypted(k, enc) {
            Some(p) => p,
            None => enc,
        },
        None => enc,
    }
}

pub open spec fn text_msg(role: Seq<char>, text: Seq<char>) -> MsgV {
    MsgV {
        role,
        content: Some(text),
        name: None,
        tool_calls: None,
        tool_call_id: None,
        reasoning_content: None,
    }
}

pub open spec fn chat_role(r: MessageRole) -> Seq<char> {
    match r {
        MessageRole::User => "user"@,
        MessageRole::System => "system"@,
        MessageRole::Developer => "system"@,
        MessageRole::Assistant => "assistant"@,
    }
}

pub open spec fn is_user_message(i: InputItemV) -> bool {
    i matches InputItemV::Message(m) && m.role == MessageRole::User
}

/// Index of the first user message.
pub open spec fn first_user(items: Seq<InputItemV>) -> Option<int>
    decreases items.len(),
{
    if items.len() == 0 {
        None
    } else {
        match first_user(items.drop_last()) {
            Some(i) => Some(i),
            None => if is_user_message(items.last()) {
                Some(items.len() - 1)
            } else {
                None
            },
        }
    }
}

/// Where the conversation starts: the first user message, else the first item.
pub open spec fn user_start(items: Seq<InputItemV>) -> int {
    match first_user(items) {
        Some(i) => i,
        None => 0,
    }
}

/// Items before the conversation that merge into the system message.
pub open spec fn merges(i: InputItemV) -> bool {
    ||| i matches InputItemV::Message(m) && (m.role == MessageRole::System || m.role
        == MessageRole::Developer)
    ||| i is Compaction
}

pub open spec fn merged_text(i: InputItemV, key: Option<Seq<u8>>) -> Seq<char> {
    match i {
        InputItemV::Message(m) => content_text(m.content),
        InputItemV::Compaction(c) => summary_text(key, c.encrypted_content),
        _ => Seq::empty(),
    }
}

/// The non-empty texts of the merging items among the first `n`.
pub open spec fn merged_parts(items: Seq<InputItemV>, n: int, key: Option<Seq<u8>>) -> Seq<
    Seq<char>,
>
    decreases n,
{
    if n <= 0 {
        Seq::empty()
    } else {
        let rest = merged_parts(items, n - 1, key);
        let i = items[n - 1];
        if merges(i) && merged_text(i, key).len() > 0 {
            rest.push(merged_text(i, key))
        } else {
            rest
        }
    }
}

pub open spec fn instruction_parts(instructions: Option<Seq<char>>) -> Seq<Seq<char>> {
    match instructions {
        Some(s) => if s.len() > 0 {
            seq![s]
        } else {
            Seq::empty()
        },
        None => Seq::empty(),
    }
}

/// The leading system message, if there is anything to put in it.
pub open spec fn system_msgs(parts: Seq<Seq<char>>) -> Seq<MsgV> {
    if parts.len() > 0 {
        seq![text_msg("system"@, join(parts, "\n\n"@))]
    } else {
        Seq::empty()
    }
}

/// Messages written so far, function calls waiting to be written as one
/// assistant message, tool messages waiting for it, and the reasoning of
/// the current turn.
#[verifier::ext_equal]
pub ghost struct ConvState {
    pub msgs: Seq<MsgV>,
    pub pending: Seq<ToolCallV>,
    pub deferred: Seq<MsgV>,
    pub reasoning: Option<Seq<char>>,
}

/// Writes the waiting function calls as one assistant message.
pub open spec fn flush(s: ConvState) -> ConvState {
    if s.pending.len() > 0 {
        ConvState {
            msgs: s.msgs.push(
                MsgV {
                    role: "assistant"@,
                    content: None,
                    name: None,
                    tool_calls: Some(s.pending),
                    tool_call_id: None,
                    reasoning_content: s.reasoning,
                },
            ),
            pending: Seq::empty(),
            ..s
        }
    } else {
        s
    }
}

/// Writes the waiting function calls, then the tool messages waiting for them.
pub open spec fn settle(s: ConvState) -> ConvState {
    let t = flush(s);
    ConvState { msgs: t.msgs + t.deferred, deferred: Seq::empty(), ..t }
}

pub open spec fn tool_call_of(f: FunctionCallItemV) -> ToolCallV {
    ToolCallV { id: f.call_id, call_type: "function"@, name: f.name, arguments: f.arguments }
}

pub open spec fn tool_msg(f: FunctionCallOutputItemV) -> MsgV {
    MsgV {
        role: "tool"@,
        content: Some(output_text(f.output)),
        name: None,
        tool_calls: None,
        tool_call_id: Some(f.call_id),
        reasoning_content: None,
    }
}

/// The message a conversation message becomes, if it has text.
pub open spec fn message_msg(m: InputMessageV, reasoning: Option<Seq<char>>) -> Option<MsgV> {
    let text = content_text(m.content);
    if text.len() == 0 {
        None
    } else {
        Some(
            MsgV {
                role: chat_role(m.role),
                content: Some(text),
                name: None,
                tool_calls: None,
                tool_call_id: None,
                reasoning_content: reasoning,
            },
        )
    }
}

/// One conversation item.
pub open spec fn step(s: ConvState, i: InputItemV, key: Option<Seq<u8>>) -> ConvState {
    match i {
        InputItemV::FunctionCallOutput(f) => ConvState { deferred: s.deferred.push(tool_msg(f)), ..s },
        InputItemV::Reasoning(r) => {
            let t = settle(s);
            let text = reasoning_text(r);
            if text.len() > 0 {
                ConvState {
                    reasoning: Some(
                        match t.reasoning {
                            Some(e) => e + "\n"@ + text,
                            None => text,
                        },
                    ),
                    ..t
                }
            } else {
                t
            }
        },
        InputItemV::Unknown => s,
        InputItemV::Compaction(c) => {
            let t = settle(s);
            ConvState {
                msgs: t.msgs.push(text_msg("system"@, summary_text(key, c.encrypted_content))),
                ..t
            }
        },
        InputItemV::FunctionCall(f) => ConvState { pending: s.pending.push(tool_call_of(f)), ..s },
        InputItemV::Message(m) => {
            let t = settle(s);
            let reasoning = if m.role == MessageRole::Assistant {
                t.reasoning
            } else {
                None
            };
            let u = ConvState { reasoning, ..t };
            match message_msg(m, reasoning) {
                Some(msg) => ConvState { msgs: u.msgs.push(msg), ..u },
                None => u,
            }
        },
    }
}

/// The state after the first `n` items; the items merged into the system
/// message are passed over.
pub open spec fn run(items: Seq<InputItemV>, n: int, us: int, key: Option<Seq<u8>>, init: ConvState) -> ConvState
    decreases n,
{
    if n <= 0 {
        init
    } else {
        let s = run(items, n - 1, us, key, init);
        if n - 1 < us && merges(items[n - 1]) {
            s
        } else {
            step(s, items[n - 1], key)
        }
    }
}

pub open spec fn start_state(msgs: Seq<MsgV>) -> ConvState {
    ConvState { msgs, pending: Seq::empty(), deferred: Seq::empty(), reasoning: None }
}

/// The Chat messages of an item array.
pub open spec fn item_msgs(items: Seq<InputItemV>, instructions: Option<Seq<char>>, key: Option<Seq<u8>>) -> Seq<MsgV> {
    let us = user_start(items);
    let parts = instruction_parts(instructions) + merged_parts(items, us, key);
    settle(run(items, items.len() as int, us, key, start_state(system_msgs(parts)))).msgs
}

/// The Chat messages of a request.
pub open spec fn chat_msgs(input: Input, instructions: Option<Seq<char>>, key: Option<Seq<u8>>) -> Seq<MsgV> {
    match input {
        Input::String(s) => system_msgs(instruction_parts(instructions)) + seq![text_msg("user"@, s@)],
        Input::Array(a) => item_msgs(
            seq_view(a@).map_values(|v: JsonV| item_of(v)),
            instructions,
            key,
        ),
    }
}

/// A tool nested under `function`; a missing name becomes empty.
pub open spec fn chat_tool_of(t: ToolParamV) -> ChatToolV {
    ChatToolV {
        tool_type: "function"@,
        name: match t.name {
            Some(n) => n,
            None => Seq::empty(),
        },
        description: t.description,
        parameters: t.parameters,
        strict: t.strict,
    }
}

/// The tools whose type is allowed, nested under `function`.
pub open spec fn kept_tools(ts: Seq<ToolParamV>, allow: Seq<Seq<char>>) -> Seq<ChatToolV>
    decreases ts.len(),
{
    if ts.len() == 0 {
        Seq::empty()
    } else {
        let rest = kept_tools(ts.drop_last(), allow);
        let t = ts.last();
        if allow.contains(t.tool_type) {
            rest.push(chat_tool_of(t))
        } else {
            rest
        }
    }
}

/// `reasoning.effort`, when it is a string.
pub open spec fn effort_of(reasoning: Option<JsonV>) -> Option<Seq<char>> {
    match reasoning {
        Some(r) => r.get_str("effort"@),
        None => None,
    }
}

/// Thinking is on for every effort but `none`.
pub open spec fn thinking_on(reasoning: Option<JsonV>) -> bool {
    effort_of(reasoning) is Some && effort_of(reasoning)->0 != "none"@
}

/// `xhigh` asks for the most effort; every other effort for high.
pub open spec fn effort_level(reasoning: Option<JsonV>) -> Option<Seq<char>> {
    if !thinking_on(reasoning) {
        None
    } else if effort_of(reasoning) == Some("xhigh"@) {
        Some("max"@)
    } else {
        Some("high"@)
    }
}

/// `text.format`, with `json_schema` lowered to `json_object`.
pub open spec fn response_format_of(text: Option<JsonV>) -> Option<JsonV> {
    match text {
        Some(t) => match t.get("format"@) {
            Some(f) => Some(
                if f.get_str("type"@) == Some("json_schema"@) {
                    object_of(seq![("type"@, JsonV::Str("json_object"@))])
                } else {
                    f
                },
            ),
            None => None,
        },
        None => None,
    }
}

pub open spec fn strings_view(s: Seq<String>) -> Seq<Seq<char>> {
    s.map_values(|x: String| x@)
}

// ─── Reading items ──────────────────────────────────────────────────────

/// Joins the texts of the `input_text` blocks, one per line.
pub fn extract_text_from_content(blocks: &Vec<InputContentBlock>) -> (r: String)
    ensures
        r@ == content_text(blocks@.map_values(|b: InputContentBlock| b@)),
{
    let ghost bv = blocks@.map_values(|b: InputContentBlock| b@);
    let mut parts: Vec<String> = Vec::new();
    let mut i: usize = 0;
    while i < blocks.len()
        invariant
            i <= blocks@.len(),
            bv == blocks@.map_values(|b: InputContentBlock| b@),
            strings_view(parts@) == block_texts(bv.take(i as int)),
        decreases blocks.len() - i,
    {
        assert(bv.take(i + 1).drop_last() =~= bv.take(i as int));
        match &blocks[i] {
            InputContentBlock::Text { text } => {
                parts.push(text.clone());
                assert(strings_view(parts@) =~= block_texts(bv.take(i as int)).push(text@));
            },
            _ => {},
        }
        i = i + 1;
    }
    assert(bv.take(blocks@.len() as int) =~= bv);
    join_strings(&parts, "\n")
}

/// The texts of the blocks of type `ty`.
fn typed_block_texts(vs: &Vec<Json>, ty: &str) -> (r: Vec<String>)
    ensures
        strings_view(r@) == typed_texts(seq_view(vs@), ty@),
{
    let ghost sv = seq_view(vs@);
    let mut parts: Vec<String> = Vec::new();
    let mut i: usize = 0;
    while i < vs.len()
        invariant
            i <= vs@.len(),
            sv == seq_view(vs@),
            strings_view(parts@) == typed_texts(sv.take(i as int), ty@),
        decreases vs.len() - i,
    {
        assert(sv.take(i + 1).drop_last() =~= sv.take(i as int));
        assert(sv.take(i + 1).last() == json_view(vs@[i as int]));
        let v = &vs[i];
        let is_ty = match v.get_str("type") {
            Some(t) => str_eq(t, ty),
            None => false,
        };
        if is_ty {
            match v.get_str("text") {
                Some(t) => {
                    parts.push(owned(t));
                    assert(strings_view(parts@) =~= typed_texts(sv.take(i as int), ty@).push(t@));
                },
                None => {},
            }
        }
        i = i + 1;
    }
    assert(sv.take(vs@.len() as int) =~= sv);
    parts
}

/// The text of a reasoning item: its `reasoning_text` content when there is
/// any, else its `summary_text` summary.
pub fn extract_reasoning_summary(r: &InputReasoning) -> (t: String)
    ensures
        t@ == reasoning_text(r@),
{
    let from_summary = typed_block_texts(&r.summary, "summary_text");
    let from_content = typed_block_texts(&r.content, "reasoning_text");
    if from_content.len() > 0 {
        join_strings(&from_content, "\n")
    } else {
        join_strings(&from_summary, "\n")
    }
}

/// The texts of the `input_text` blocks of a function call output, one per line.
pub fn extract_text_from_output_blocks(blocks: &Vec<Json>) -> (t: String)
    ensures
        t@ == join(typed_texts(seq_view(blocks@), "input_text"@), "\n"@),
{
    let parts = typed_block_texts(blocks, "input_text");
    join_strings(&parts, "\n")
}

fn output_value_text(o: &FunctionCallOutputValue) -> (t: String)
    ensures
        t@ == output_text(
            match o {
                FunctionCallOutputValue::String(s) => OutputValueV::Text(s@),
                FunctionCallOutputValue::Array(a) => OutputValueV::Array(seq_view(a@)),
            },
        ),
{
    match o {
        FunctionCallOutputValue::String(s) => s.clone(),
        FunctionCallOutputValue::Array(a) => extract_text_from_output_blocks(a),
    }
}

/// A compaction summary as the conversation reads it.
pub fn summary_of(key: Option<&[u8; 32]>, enc: &String) -> (t: String)
    ensures
        t@ == summary_text(key_view(key), enc@),
{
    match key {
        Some(k) => match decrypt(k, enc.as_str()) {
            Some(p) => p,
            None => enc.clone(),
        },
        None => enc.clone(),
    }
}

fn clone_opt(s: &Option<String>) -> (r: Option<String>)
    ensures
        opt_view(r) == opt_view(*s),
{
    match s {
        Some(x) => Some(x.clone()),
        None => None,
    }
}

fn plain_message(role: &str, text: String) -> (m: ChatMessage)
    ensures
        m@ == text_msg(role@, text@),
{
    ChatMessage {
        role: owned(role),
        content: ChatMessageContent::String(text),
        name: None,
        tool_calls: None,
        tool_call_id: None,
        reasoning_content: None,
    }
}

/// The Chat message of a conversation message; `None` when it has no text.
pub fn convert_input_message(msg: &InputMessage, reasoning_content: Option<String>) -> (r: Option<
    ChatMessage,
>)
    ensures
        match r {
            Some(m) => message_msg(msg@, opt_view(reasoning_content)) == Some(m@),
            None => message_msg(msg@, opt_view(reasoning_content)).is_none(),
        },
{
    let role = match msg.role {
        MessageRole::User => "user",
        MessageRole::System => "system",
        MessageRole::Developer => "system",
        MessageRole::Assistant => "assistant",
    };
    let text = extract_text_from_content(&msg.content);
    if text.as_str().is_empty() {
        return None;
    }
    Some(
        ChatMessage {
            role: owned(role),
            content: ChatMessageContent::String(text),
            name: None,
            tool_calls: None,
            tool_call_id: None,
            reasoning_content,
        },
    )
}

// ─── The conversation state ─────────────────────────────────────────────

struct Conv {
    messages: Vec<ChatMessage>,
    pending: Vec<ChatToolCall>,
    deferred: Vec<ChatMessage>,
    reasoning: Option<String>,
}

impl View for Conv {
    type V = ConvState;

    closed spec fn view(&self) -> ConvState {
        ConvState {
            msgs: msgs_view(self.messages@),
            pending: calls_view(self.pending@),
            deferred: msgs_view(self.deferred@),
            reasoning: opt_view(self.reasoning),
        }
    }
}

impl Conv {
    fn flush(&mut self)
        ensures
            final(self)@ == flush(old(self)@),
    {
        if self.pending.len() > 0 {
            let mut calls: Vec<ChatToolCall> = Vec::new();
            std::mem::swap(&mut calls, &mut self.pending);
            let ghost before = self.messages@;
            self.messages.push(
                ChatMessage {
                    role: owned("assistant"),
                    content: ChatMessageContent::Null,
                    name: None,
                    tool_calls: Some(calls),
                    tool_call_id: None,
                    reasoning_content: clone_opt(&self.reasoning),
                },
            );
            assert(msgs_view(self.messages@) =~= msgs_view(before).push(self.messages@.last()@));
            assert(calls_view(self.pending@) =~= Seq::<ToolCallV>::empty());
        }
    }

    fn settle(&mut self)
        ensures
            final(self)@ == settle(old(self)@),
    {
        self.flush();
        let ghost m = self.messages@;
        let ghost d = self.deferred@;
        self.messages.append(&mut self.deferred);
        assert(msgs_view(self.messages@) =~= msgs_view(m) + msgs_view(d));
        assert(msgs_view(self.deferred@) =~= Seq::<MsgV>::empty());
    }

    fn push_message(&mut self, m: ChatMessage)
        ensures
            final(self)@ == (ConvState { msgs: old(self)@.msgs.push(m@), ..old(self)@ }),
    {
        let ghost before = self.messages@;
        self.messages.push(m);
        assert(msgs_view(self.messages@) =~= msgs_view(before).push(m@));
    }

    fn step(&mut self, item: &InputItem, key: Option<&[u8; 32]>)
        ensures
            final(self)@ == step(old(self)@, item@, key_view(key)),
    {
        match item {
            InputItem::FunctionCallOutput(f) => {
                let content = output_value_text(&f.output);
                let ghost before = self.deferred@;
                self.deferred.push(
                    ChatMessage {
                        role: owned("tool"),
                        content: ChatMessageContent::String(content),
                        name: None,
                        tool_calls: None,
                        tool_call_id: Some(f.call_id.clone()),
                        reasoning_content: None,
                    },
                );
                assert(msgs_view(self.deferred@) =~= msgs_view(before).push(tool_msg(f@)));
            },
            InputItem::Reasoning(r) => {
                self.settle();
                let text = extract_reasoning_summary(r);
                if !text.as_str().is_empty() {
                    let next = match self.reasoning.take() {
                        Some(existing) => {
                            let mut e = existing;
                            e.append("\n");
                            e.append(text.as_str());
                            e
                        },
                        None => text,
                    };
                    self.reasoning = Some(next);
                }
            },
            InputItem::Unknown => {},
            InputItem::Compaction(c) => {
                let text = summary_of(key, &c.encrypted_content);
                self.settle();
                self.push_message(plain_message("system", text));
            },
            InputItem::FunctionCall(fc) => {
                let ghost before = self.pending@;
                self.pending.push(
                    ChatToolCall {
                        id: fc.call_id.clone(),
                        call_type: owned("function"),
                        function: ChatFunctionCall {
                            name: fc.name.clone(),
                            arguments: fc.arguments.clone(),
                        },
                    },
                );
                assert(calls_view(self.pending@) =~= calls_view(before).push(tool_call_of(fc@)));
            },
            InputItem::Message(msg) => {
                self.settle();
                let reasoning = if msg.role == MessageRole::Assistant {
                    clone_opt(&self.reasoning)
                } else {
                    self.reasoning = None;
                    None
                };
                match convert_input_message(msg, reasoning) {
                    Some(m) => self.push_message(m),
                    None => {},
                }
            },
        }
    }
}

// ─── The conversion ─────────────────────────────────────────────────────

fn allowed(allow: &[String], t: &String) -> (r: bool)
    ensures
        r == strings_view(allow@).contains(t@),
{
    let mut i: usize = 0;
    while i < allow.len()
        invariant
            i <= allow@.len(),
            forall|k: int| 0 <= k < i ==> allow@[k]@ != t@,
        decreases allow.len() - i,
    {
        if str_eq(allow[i].as_str(), t.as_str()) {
            assert(strings_view(allow@)[i as int] == t@);
            return true;
        }
        i = i + 1;
    }
    assert forall|k: int| 0 <= k < strings_view(allow@).len() implies strings_view(allow@)[k] != t@ by {
        assert(strings_view(allow@)[k] == allow@[k]@);
    }
    false
}

fn convert_tools(tools: Vec<ToolParam>, allow: &[String]) -> (r: Vec<ChatTool>)
    ensures
        r@.map_values(|t: ChatTool| t@) == kept_tools(
            tools@.map_values(|t: ToolParam| t@),
            strings_view(allow@),
        ),
{
    let ghost tv = tools@.map_values(|t: ToolParam| t@);
    let ghost ts = tools@;
    let mut r: Vec<ChatTool> = Vec::new();
    for t in it: tools
        invariant
            it.seq() == ts,
            tv == ts.map_values(|t: ToolParam| t@),
            r@.map_values(|t: ChatTool| t@) == kept_tools(
                tv.take(it.index() as int),
                strings_view(allow@),
            ),
    {
        let ghost k = it.index() as int;
        let ghost before = r@;
        assert(tv.take(k + 1).drop_last() =~= tv.take(k));
        assert(tv.take(k + 1).last() == t@);
        if allowed(allow, &t.tool_type) {
            let name = match t.name {
                Some(n) => n,
                None => String::new(),
            };
            r.push(
                ChatTool {
                    tool_type: owned("function"),
                    function: ChatFunctionDef {
                        name,
                        description: t.description,
                        parameters: t.parameters,
                        strict: t.strict,
                    },
                },
            );
            assert(r@.map_values(|t: ChatTool| t@) =~= before.map_values(|t: ChatTool| t@).push(
                r@.last()@,
            ));
        }
    }
    assert(tv.take(ts.len() as int) =~= tv);
    r
}

fn index_of_first_user(items: &Vec<InputItem>) -> (r: usize)
    ensures
        r as int == user_start(items@.map_values(|i: InputItem| i@)),
        r <= items@.len(),
{
    let ghost iv = items@.map_values(|i: InputItem| i@);
    let mut i: usize = 0;
    while i < items.len()
        invariant
            i <= items@.len(),
            iv == items@.map_values(|i: InputItem| i@),
            first_user(iv.take(i as int)).is_none(),
        decreases items.len() - i,
    {
        assert(iv.take(i + 1).drop_last() =~= iv.take(i as int));
        let is_user = match &items[i] {
            InputItem::Message(m) => m.role == MessageRole::User,
            _ => false,
        };
        if is_user {
            proof {
                lemma_first_user_prefix(iv, i as int + 1);
            }
            return i;
        }
        i = i + 1;
    }
    assert(iv.take(items@.len() as int) =~= iv);
    0
}

proof fn lemma_first_user_prefix(items: Seq<InputItemV>, n: int)
    requires
        0 < n <= items.len(),
        first_user(items.take(n)) == Some(n - 1),
    ensures
        first_user(items) == Some(n - 1),
    decreases items.len(),
{
    if n < items.len() {
        assert(items.drop_last().take(n) =~= items.take(n));
        lemma_first_user_prefix(items.drop_last(), n);
    } else {
        assert(items.take(n) =~= items);
    }
}

fn merges_exec(item: &InputItem) -> (r: bool)
    ensures
        r == merges(item@),
{
    match item {
        InputItem::Message(m) => m.role == MessageRole::System || m.role == MessageRole::Developer,
        InputItem::Compaction(_) => true,
        _ => false,
    }
}

fn instruction_list(instructions: &Option<String>) -> (r: Vec<String>)
    ensures
        strings_view(r@) == instruction_parts(opt_view(*instructions)),
{
    let mut parts: Vec<String> = Vec::new();
    match instructions {
        Some(s) => {
            if !s.as_str().is_empty() {
                parts.push(s.clone());
            }
        },
        None => {},
    }
    assert(strings_view(parts@) =~= instruction_parts(opt_view(*instructions)));
    parts
}

fn system_message(parts: &Vec<String>) -> (r: Vec<ChatMessage>)
    ensures
        msgs_view(r@) == system_msgs(strings_view(parts@)),
{
    let mut r: Vec<ChatMessage> = Vec::new();
    if parts.len() > 0 {
        r.push(plain_message("system", join_strings(parts, "\n\n")));
    }
    assert(msgs_view(r@) =~= system_msgs(strings_view(parts@)));
    r
}

/// The Chat messages of an array of raw input items.
fn convert_items(raw: &Vec<Json>, instructions: &Option<String>, compact_key: Option<&[u8; 32]>) -> (r: Vec<ChatMessage>)
    ensures
        msgs_view(r@) == item_msgs(
            seq_view(raw@).map_values(|v: JsonV| item_of(v)),
            opt_view(*instructions),
            key_view(compact_key),
        ),
{
    let ghost key = key_view(compact_key);
    let mut items: Vec<InputItem> = Vec::new();
    let mut i: usize = 0;
    while i < raw.len()
        invariant
            i <= raw@.len(),
            items@.len() == i,
            forall|k: int| 0 <= k < i ==> (#[trigger] items@[k])@ == item_of(json_view(raw@[k])),
        decreases raw.len() - i,
    {
        items.push(parse_input_item(&raw[i]));
        i = i + 1;
    }
    let ghost iv = items@.map_values(|x: InputItem| x@);
    assert(iv =~= seq_view(raw@).map_values(|v: JsonV| item_of(v)));
    let us = index_of_first_user(&items);
    let mut parts = instruction_list(instructions);
    let mut j: usize = 0;
    while j < us
        invariant
            j <= us <= items@.len(),
            iv == items@.map_values(|x: InputItem| x@),
            key == key_view(compact_key),
            strings_view(parts@) == instruction_parts(opt_view(*instructions)) + merged_parts(iv, j as int, key),
        decreases us - j,
    {
        let ghost before = parts@;
        assert(iv[j as int] == items@[j as int]@);
        let ghost prev = merged_parts(iv, j as int, key);
        assert(merged_parts(iv, j + 1, key) == if merges(iv[j as int]) && merged_text(iv[j as int], key).len() > 0 {
            prev.push(merged_text(iv[j as int], key))
        } else {
            prev
        });
        match &items[j] {
            InputItem::Message(m) => {
                if m.role == MessageRole::System || m.role == MessageRole::Developer {
                    let t = extract_text_from_content(&m.content);
                    assert(t@ == merged_text(iv[j as int], key));
                    if !t.as_str().is_empty() {
                        parts.push(t);
                        assert(strings_view(parts@) =~= strings_view(before).push(t@));
                    }
                }
            },
            InputItem::Compaction(c) => {
                let t = summary_of(compact_key, &c.encrypted_content);
                assert(t@ == merged_text(iv[j as int], key));
                if !t.as_str().is_empty() {
                    parts.push(t);
                    assert(strings_view(parts@) =~= strings_view(before).push(t@));
                }
            },
            _ => {},
        }
        assert(strings_view(parts@) =~= instruction_parts(opt_view(*instructions)) + merged_parts(iv, j + 1, key));
        j = j + 1;
    }
    let mut conv = Conv {
        messages: system_message(&parts),
        pending: Vec::new(),
        deferred: Vec::new(),
        reasoning: None,
    };
    let ghost init = start_state(system_msgs(strings_view(parts@)));
    assert(conv@ =~= init);
    let mut k: usize = 0;
    while k < items.len()
        invariant
            k <= items@.len(),
            us <= items@.len(),
            iv == items@.map_values(|x: InputItem| x@),
            key == key_view(compact_key),
            conv@ == run(iv, k as int, us as int, key, init),
        decreases items.len() - k,
    {
        let skip = k < us && merges_exec(&items[k]);
        if !skip {
            conv.step(&items[k], compact_key);
        }
        k = k + 1;
    }
    conv.settle();
    conv.messages
}

/// Every field of a Chat request but its model is what converting the
/// Responses request gives: the messages, the sampling settings, the tools
/// the allowlist keeps (nested under `function`, in order), the tool choice,
/// stream flag and stop, the response format, the reasoning settings, and
/// log probabilities unless thinking is on.
pub open spec fn converted_from(
    c: ChatCompletionRequest,
    req: ResponsesRequest,
    allow: Seq<Seq<char>>,
    key: Option<Seq<u8>>,
) -> bool {
    &&& msgs_view(c.messages@) == chat_msgs(req.input, opt_view(req.instructions), key)
    &&& c.temperature == req.temperature
    &&& c.top_p == req.top_p
    &&& c.max_tokens == req.max_output_tokens
    &&& match c.tools {
        Some(v) => req.tools is Some && v@.map_values(|t: ChatTool| t@) == kept_tools(
            req.tools->0@.map_values(|t: ToolParam| t@),
            allow,
        ),
        None => req.tools is None,
    }
    &&& opt_json_view(c.tool_choice) == opt_json_view(req.tool_choice)
    &&& c.stream == req.stream
    &&& c.stop == req.stop
    &&& opt_json_view(c.response_format) == response_format_of(opt_json_view(req.text))
    &&& opt_view(c.reasoning_effort) == effort_level(opt_json_view(req.reasoning))
    &&& (c.thinking is Some) == thinking_on(opt_json_view(req.reasoning))
    &&& (c.thinking is Some ==> c.thinking->0.thinking_type@ == "enabled"@)
    &&& c.logprobs == if thinking_on(opt_json_view(req.reasoning)) {
        None
    } else {
        match req.top_logprobs {
            Some(_) => Some(true),
            None => None,
        }
    }
    &&& c.top_logprobs == if thinking_on(opt_json_view(req.reasoning)) {
        None
    } else {
        req.top_logprobs
    }
}

/// Converts a Responses API request into a Chat Completions request.
///
/// Tools whose type is not in `tool_type_allowlist` are dropped.
pub fn responses_to_chat(
    req: ResponsesRequest,
    tool_type_allowlist: &[String],
    compact_key: Option<&[u8; 32]>,
) -> (r: ChatCompletionRequest)
    ensures
        r.model@ == req.model@,
        converted_from(r, req, strings_view(tool_type_allowlist@), key_view(compact_key)),
{
    let ResponsesRequest {
        model,
        input,
        instructions,
        temperature,
        top_p,
        max_output_tokens,
        tools,
        tool_choice,
        stream,
        stop,
        top_logprobs,
        previous_response_id: _,
        store: _,
        metadata: _,
        reasoning,
        text,
    } = req;
    let messages: Vec<ChatMessage> = match input {
        Input::String(s) => {
            let parts = instruction_list(&instructions);
            let mut messages = system_message(&parts);
            let ghost before = messages@;
            messages.push(plain_message("user", s));
            assert(msgs_view(messages@) =~= msgs_view(before).push(text_msg("user"@, s@)));
            messages
        },
        Input::Array(raw) => convert_items(&raw, &instructions, compact_key),
    };
    let chat_tools = match tools {
        Some(ts) => Some(convert_tools(ts, tool_type_allowlist)),
        None => None,
    };
    let effort: Option<&str> = match &reasoning {
        Some(r) => r.get_str("effort"),
        None => None,
    };
    let (reasoning_effort, thinking) = match effort {
        None => (None, None),
        Some(e) => {
            if str_eq(e, "none") {
                (None, None)
            } else if str_eq(e, "xhigh") {
                (Some(owned("max")), Some(ThinkingConfig { thinking_type: owned("enabled") }))
            } else {
                (Some(owned("high")), Some(ThinkingConfig { thinking_type: owned("enabled") }))
            }
        },
    };
    let (logprobs, top_lp) = if thinking.is_some() {
        (None, None)
    } else {
        (
            match top_logprobs {
                Some(_) => Some(true),
                None => None,
            },
            top_logprobs,
        )
    };
    let response_format = match &text {
        Some(t) => match t.get("format") {
            Some(f) => {
                let is_schema = match f.get_str("type") {
                    Some(ty) => str_eq(ty, "json_schema"),
                    None => false,
                };
                if is_schema {
                    let pairs = vec![(owned("type"), Json::str_value("json_object"))];
                    assert(crate::value::fields_view(pairs@) =~= seq![("type"@, JsonV::Str("json_object"@))]);
                    Some(object(pairs))
                } else {
                    Some(copy_json(f))
                }
            },
            None => None,
        },
        None => None,
    };
    assert(msgs_view(messages@) == chat_msgs(input, opt_view(instructions), key_view(compact_key)));
    ChatCompletionRequest {
        model,
        messages,
        temperature,
        top_p,
        max_tokens: max_output_tokens,
        tools: chat_tools,
        tool_choice,
        stream,
        response_format,
        stop,
        logprobs,
        top_logprobs: top_lp,
        reasoning_effort,
        thinking,
    }
}


// ─── The instructions lead ──────────────────────────────────────────────

/// A state whose messages begin with `first`, with no system message
/// after them, and whose waiting messages are tool messages.
pub open spec fn leads_with(s: ConvState, first: Seq<MsgV>) -> bool {
    &&& s.msgs.len() >= first.len()
    &&& s.msgs.subrange(0, first.len() as int) == first
    &&& forall|j: int| first.len() <= j < s.msgs.len() ==> (#[trigger] s.msgs[j]).role != "system"@
    &&& forall|j: int| 0 <= j < s.deferred.len() ==> (#[trigger] s.deferred[j]).role == "tool"@
}

proof fn lemma_push_keeps_lead(s: ConvState, first: Seq<MsgV>, m: MsgV)
    requires
        leads_with(s, first),
        m.role != "system"@,
    ensures
        leads_with(ConvState { msgs: s.msgs.push(m), ..s }, first),
{
    let t = s.msgs.push(m);
    assert(t.subrange(0, first.len() as int) =~= s.msgs.subrange(0, first.len() as int));
    assert forall|j: int| first.len() <= j < t.len() implies (#[trigger] t[j]).role != "system"@ by {
        if j < s.msgs.len() {
            assert(t[j] == s.msgs[j]);
        }
    }
}

proof fn lemma_settle_keeps_lead(s: ConvState, first: Seq<MsgV>)
    requires
        leads_with(s, first),
    ensures
        leads_with(settle(s), first),
{
    reveal_strlit("system");
    reveal_strlit("assistant");
    reveal_strlit("tool");
    assert("system"@.len() == 6 && "assistant"@.len() == 9 && "tool"@.len() == 4);
    let t = flush(s);
    if s.pending.len() > 0 {
        lemma_push_keeps_lead(s, first, t.msgs.last());
        assert(t.msgs == s.msgs.push(t.msgs.last()));
    }
    let u = t.msgs + t.deferred;
    assert(u.subrange(0, first.len() as int) =~= t.msgs.subrange(0, first.len() as int));
    assert forall|j: int| first.len() <= j < u.len() implies (#[trigger] u[j]).role != "system"@ by {
        if j < t.msgs.len() {
            assert(u[j] == t.msgs[j]);
        } else {
            assert(u[j] == t.deferred[j - t.msgs.len()]);
        }
    }
}

proof fn lemma_step_keeps_lead(s: ConvState, i: InputItemV, key: Option<Seq<u8>>, first: Seq<MsgV>)
    requires
        leads_with(s, first),
        !merges(i),
    ensures
        leads_with(step(s, i, key), first),
{
    reveal_strlit("system");
    reveal_strlit("assistant");
    reveal_strlit("tool");
    reveal_strlit("user");
    assert("system"@.len() == 6 && "assistant"@.len() == 9 && "tool"@.len() == 4 && "user"@.len() == 4);
    match i {
        InputItemV::FunctionCallOutput(f) => {
            let d = s.deferred.push(tool_msg(f));
            assert forall|j: int| 0 <= j < d.len() implies (#[trigger] d[j]).role == "tool"@ by {
                if j < s.deferred.len() {
                    assert(d[j] == s.deferred[j]);
                }
            }
        },
        InputItemV::Reasoning(r) => {
            lemma_settle_keeps_lead(s, first);
        },
        InputItemV::Unknown => {},
        InputItemV::Compaction(c) => {},
        InputItemV::FunctionCall(f) => {},
        InputItemV::Message(m) => {
            lemma_settle_keeps_lead(s, first);
            let t = settle(s);
            let reasoning = if m.role == MessageRole::Assistant {
                t.reasoning
            } else {
                None
            };
            let u = ConvState { reasoning, ..t };
            match message_msg(m, reasoning) {
                Some(msg) => lemma_push_keeps_lead(u, first, msg),
                None => {},
            }
        },
    }
}

proof fn lemma_run_keeps_lead(
    items: Seq<InputItemV>,
    n: int,
    us: int,
    key: Option<Seq<u8>>,
    init: ConvState,
    first: Seq<MsgV>,
)
    requires
        0 <= n <= items.len(),
        leads_with(init, first),
        forall|j: int| us <= j < items.len() ==> !merges(#[trigger] items[j]),
    ensures
        leads_with(run(items, n, us, key, init), first),
    decreases n,
{
    if n > 0 {
        lemma_run_keeps_lead(items, n - 1, us, key, init, first);
        let s = run(items, n - 1, us, key, init);
        if !(n - 1 < us && merges(items[n - 1])) {
            lemma_step_keeps_lead(s, items[n - 1], key, first);
        }
    }
}

proof fn lemma_join_starts_with_first(parts: Seq<Seq<char>>, sep: Seq<char>)
    requires
        parts.len() >= 1,
    ensures
        join(parts, sep).len() >= parts[0].len(),
        join(parts, sep).subrange(0, parts[0].len() as int) == parts[0],
    decreases parts.len(),
{
    if parts.len() == 1 {
        assert(join(parts, sep).subrange(0, parts[0].len() as int) =~= parts[0]);
    } else {
        lemma_join_starts_with_first(parts.drop_last(), sep);
        let a = join(parts.drop_last(), sep);
        assert(parts.drop_last()[0] == parts[0]);
        assert((a + sep + parts.last()).subrange(0, parts[0].len() as int) =~= a.subrange(
            0,
            parts[0].len() as int,
        ));
    }
}

/// The instructions lead the conversation. Where every system or
/// developer message and every compaction item comes before the first
/// user message, the Chat messages begin with one system message that
/// joins, with blank lines between them, the instructions (when not
/// empty) and the texts of those items in order, so that it starts with
/// the instructions; no later message is a system message. Where there is
/// nothing to join, no message is a system message.
pub proof fn law_instructions_lead(items: Seq<InputItemV>, instructions: Option<Seq<char>>, key: Option<Seq<u8>>)
    requires
        first_user(items) is Some,
        forall|j: int| user_start(items) <= j < items.len() ==> !merges(#[trigger] items[j]),
    ensures
        ({
            let msgs = item_msgs(items, instructions, key);
            let parts = instruction_parts(instructions) + merged_parts(items, user_start(items), key);
            &&& parts.len() > 0 ==> msgs.len() >= 1 && msgs[0] == text_msg(
                "system"@,
                join(parts, "\n\n"@),
            ) && forall|j: int| 1 <= j < msgs.len() ==> (#[trigger] msgs[j]).role != "system"@
            &&& parts.len() == 0 ==> forall|j: int| 0 <= j < msgs.len() ==> (#[trigger] msgs[j]).role
                != "system"@
            &&& instructions matches Some(i) ==> (i.len() > 0 ==> msgs[0].content->0.len() >= i.len()
                && msgs[0].content->0.subrange(0, i.len() as int) == i)
        }),
{
    let us = user_start(items);
    let parts = instruction_parts(instructions) + merged_parts(items, us, key);
    let first = system_msgs(parts);
    let init = start_state(first);
    assert(init.msgs.subrange(0, first.len() as int) =~= first);
    lemma_run_keeps_lead(items, items.len() as int, us, key, init, first);
    lemma_settle_keeps_lead(run(items, items.len() as int, us, key, init), first);
    let msgs = item_msgs(items, instructions, key);
    if parts.len() > 0 {
        assert(msgs[0] == msgs.subrange(0, 1)[0]);
    }
    match instructions {
        Some(i) => if i.len() > 0 {
            assert(parts[0] == i);
            lemma_join_starts_with_first(parts, "\n\n"@);
            assert(msgs[0] == msgs.subrange(0, 1)[0]);
        },
        None => {},
    }
}


// ─── The tool allowlist ─────────────────────────────────────────────────

/// Whether a tool's type is on the allowlist.
pub open spec fn allowed_type(allow: Seq<Seq<char>>) -> spec_fn(ToolParamV) -> bool {
    |t: ToolParamV| allow.contains(t.tool_type)
}

/// The tools the allowlist keeps are the request's tools whose type is on
/// the list, in their order, each nested under `function`.
pub proof fn law_tools_allowlist(ts: Seq<ToolParamV>, allow: Seq<Seq<char>>)
    ensures
        kept_tools(ts, allow) == ts.filter(allowed_type(allow)).map_values(|t: ToolParamV| chat_tool_of(t)),
    decreases ts.len(),
{
    reveal(Seq::filter);
    if ts.len() > 0 {
        law_tools_allowlist(ts.drop_last(), allow);
        let f = ts.drop_last().filter(allowed_type(allow));
        assert(allowed_type(allow)(ts.last()) == allow.contains(ts.last().tool_type));
        assert(ts.filter(allowed_type(allow)) == if allow.contains(ts.last().tool_type) {
            f.push(ts.last())
        } else {
            f
        });
        if allow.contains(ts.last().tool_type) {
            assert(f.push(ts.last()).map_values(|t: ToolParamV| chat_tool_of(t)) =~= f.map_values(
                |t: ToolParamV| chat_tool_of(t),
            ).push(chat_tool_of(ts.last())));
        }
    } else {
        assert(ts.filter(allowed_type(allow)) =~= Seq::<ToolParamV>::empty());
        assert(kept_tools(ts, allow) =~= Seq::<ChatToolV>::empty());
    }
}

// ─── The reasoning of a turn ────────────────────────────────────────────

/// The non-empty texts of the reasoning items among `items`, in order.
pub open spec fn reasoning_texts_of(items: Seq<InputItemV>) -> Seq<Seq<char>>
    decreases items.len(),
{
    if items.len() == 0 {
        Seq::empty()
    } else {
        let rest = reasoning_texts_of(items.drop_last());
        match items.last() {
            InputItemV::Reasoning(r) => if reasoning_text(r).len() > 0 {
                rest.push(reasoning_text(r))
            } else {
                rest
            },
            _ => rest,
        }
    }
}

/// Texts joined by newlines; nothing at all when there are none.
pub open spec fn joined_lines(texts: Seq<Seq<char>>) -> Option<Seq<char>> {
    if texts.len() == 0 {
        None
    } else {
        Some(join(texts, "\n"@))
    }
}

proof fn lemma_first_user_bounds(items: Seq<InputItemV>)
    ensures
        first_user(items) is Some ==> 0 <= first_user(items)->0 < items.len(),
    decreases items.len(),
{
    if items.len() > 0 {
        lemma_first_user_bounds(items.drop_last());
    }
}

proof fn lemma_first_user_at_most(items: Seq<InputItemV>, k: int)
    requires
        0 <= k < items.len(),
        is_user_message(items[k]),
    ensures
        first_user(items) is Some,
        first_user(items)->0 <= k,
    decreases items.len(),
{
    lemma_first_user_bounds(items.drop_last());
    if k < items.len() - 1 {
        assert(items.drop_last()[k] == items[k]);
        lemma_first_user_at_most(items.drop_last(), k);
    }
}

proof fn lemma_join_push_line(texts: Seq<Seq<char>>, t: Seq<char>)
    ensures
        joined_lines(texts.push(t)) == Some(
            match joined_lines(texts) {
                Some(e) => e + "\n"@ + t,
                None => t,
            },
        ),
{
    let p = texts.push(t);
    assert(p.drop_last() =~= texts);
    if texts.len() == 0 {
        assert(p.len() == 1 && p[0] == t);
    }
}

/// Over the items of a turn after the user message at `u` (none of them a
/// message), the reasoning carried is the turn's reasoning texts so far,
/// joined by newlines.
proof fn lemma_turn_reasoning(
    items: Seq<InputItemV>,
    u: int,
    turn: Seq<InputItemV>,
    us: int,
    key: Option<Seq<u8>>,
    init: ConvState,
    k: int,
)
    requires
        0 <= us <= u,
        0 <= k <= turn.len(),
        u + 1 + turn.len() <= items.len(),
        forall|i: int| 0 <= i < turn.len() ==> items[u + 1 + i] == #[trigger] turn[i],
        forall|i: int| 0 <= i < turn.len() ==> !(#[trigger] turn[i] is Message),
        run(items, u + 1, us, key, init).reasoning is None,
    ensures
        run(items, u + 1 + k, us, key, init).reasoning == joined_lines(reasoning_texts_of(turn.take(k))),
    decreases k,
{
    if k == 0 {
        assert(turn.take(0) =~= Seq::<InputItemV>::empty());
    } else {
        lemma_turn_reasoning(items, u, turn, us, key, init, k - 1);
        let s = run(items, u + k, us, key, init);
        let it = turn[k - 1];
        assert(items[u + k] == it);
        assert(turn.take(k).drop_last() =~= turn.take(k - 1));
        assert(turn.take(k).last() == it);
        assert(run(items, u + 1 + k, us, key, init) == step(s, it, key));
        match it {
            InputItemV::Reasoning(r) => {
                let text = reasoning_text(r);
                if text.len() > 0 {
                    lemma_join_push_line(reasoning_texts_of(turn.take(k - 1)), text);
                }
            },
            _ => {},
        }
    }
}

/// An assistant message carries the reasoning of its turn: the non-empty
/// texts of every reasoning item since the last user message, in order,
/// joined by newlines (none when there are none). Function calls, their
/// outputs and compaction items in between do not break the turn.
pub proof fn law_turn_reasoning(
    before: Seq<InputItemV>,
    user: InputMessageV,
    turn: Seq<InputItemV>,
    answer: InputMessageV,
    instructions: Option<Seq<char>>,
    key: Option<Seq<u8>>,
)
    requires
        user.role == MessageRole::User,
        answer.role == MessageRole::Assistant,
        content_text(answer.content).len() > 0,
        forall|i: int| 0 <= i < turn.len() ==> !(#[trigger] turn[i] is Message),
    ensures
        ({
            let items = before + seq![InputItemV::Message(user)] + turn + seq![InputItemV::Message(answer)];
            let msgs = item_msgs(items, instructions, key);
            &&& msgs.len() > 0
            &&& msgs.last() == MsgV {
                role: "assistant"@,
                content: Some(content_text(answer.content)),
                name: None,
                tool_calls: None,
                tool_call_id: None,
                reasoning_content: joined_lines(reasoning_texts_of(turn)),
            }
        }),
{
    let items = before + seq![InputItemV::Message(user)] + turn + seq![InputItemV::Message(answer)];
    let u = before.len() as int;
    let n = items.len() as int;
    assert(n == u + 2 + turn.len());
    assert(items[u] == InputItemV::Message(user));
    assert(items[n - 1] == InputItemV::Message(answer));
    assert forall|i: int| 0 <= i < turn.len() implies items[u + 1 + i] == #[trigger] turn[i] by {}
    lemma_first_user_at_most(items, u);
    lemma_first_user_bounds(items);
    let us = user_start(items);
    let parts = instruction_parts(instructions) + merged_parts(items, us, key);
    let init = start_state(system_msgs(parts));
    assert(!merges(items[u]));
    assert(run(items, u + 1, us, key, init) == step(run(items, u, us, key, init), items[u], key));
    lemma_turn_reasoning(items, u, turn, us, key, init, turn.len() as int);
    assert(turn.take(turn.len() as int) =~= turn);
    let s = run(items, n - 1, us, key, init);
    assert(s.reasoning == joined_lines(reasoning_texts_of(turn)));
    let fin = run(items, n, us, key, init);
    assert(fin == step(s, items[n - 1], key));
    let t = settle(s);
    assert(t.pending.len() == 0 && t.deferred.len() == 0);
    assert(t.reasoning == s.reasoning);
    assert(fin.pending.len() == 0 && fin.deferred.len() == 0);
    assert(settle(fin).msgs =~= fin.msgs);
}

/// Over a turn of items that are neither messages nor function calls nor
/// their outputs, nothing waits to be written.
proof fn lemma_turn_settled(
    items: Seq<InputItemV>,
    u: int,
    turn: Seq<InputItemV>,
    us: int,
    key: Option<Seq<u8>>,
    init: ConvState,
    k: int,
)
    requires
        0 <= us <= u,
        0 <= k <= turn.len(),
        u + 1 + turn.len() <= items.len(),
        forall|i: int| 0 <= i < turn.len() ==> items[u + 1 + i] == #[trigger] turn[i],
        forall|i: int|
            0 <= i < turn.len() ==> !(#[trigger] turn[i] is Message) && !(turn[i] is FunctionCall) && !(
            turn[i] is FunctionCallOutput),
        run(items, u + 1, us, key, init).pending.len() == 0,
        run(items, u + 1, us, key, init).deferred.len() == 0,
    ensures
        run(items, u + 1 + k, us, key, init).pending.len() == 0,
        run(items, u + 1 + k, us, key, init).deferred.len() == 0,
    decreases k,
{
    if k > 0 {
        lemma_turn_settled(items, u, turn, us, key, init, k - 1);
        assert(items[u + k] == turn[k - 1]);
    }
}

/// Over a run of function calls, the calls wait in order and nothing else
/// changes.
proof fn lemma_calls_wait(
    items: Seq<InputItemV>,
    m: int,
    calls: Seq<FunctionCallItemV>,
    us: int,
    key: Option<Seq<u8>>,
    init: ConvState,
    k: int,
)
    requires
        0 <= us <= m,
        0 <= k <= calls.len(),
        m + calls.len() <= items.len(),
        forall|i: int| 0 <= i < calls.len() ==> items[m + i] == InputItemV::FunctionCall(#[trigger] calls[i]),
        run(items, m, us, key, init).pending.len() == 0,
    ensures
        run(items, m + k, us, key, init) == (ConvState {
            pending: calls.take(k).map_values(|f: FunctionCallItemV| tool_call_of(f)),
            ..run(items, m, us, key, init)
        }),
    decreases k,
{
    if k == 0 {
        assert(calls.take(0).map_values(|f: FunctionCallItemV| tool_call_of(f)) =~= Seq::<ToolCallV>::empty());
        assert(run(items, m, us, key, init).pending =~= Seq::<ToolCallV>::empty());
    } else {
        lemma_calls_wait(items, m, calls, us, key, init, k - 1);
        assert(items[m + k - 1] == InputItemV::FunctionCall(calls[k - 1]));
        assert(calls.take(k).map_values(|f: FunctionCallItemV| tool_call_of(f)) =~= calls.take(k - 1).map_values(
            |f: FunctionCallItemV| tool_call_of(f),
        ).push(tool_call_of(calls[k - 1])));
    }
}

/// The assistant message that carries a turn's function calls carries the
/// turn's reasoning too: the non-empty texts of the reasoning items since
/// the user message, in order, joined by newlines. The calls are written
/// in order, each as a `function` call with its id, name and arguments.
pub proof fn law_tool_call_reasoning(
    before: Seq<InputItemV>,
    user: InputMessageV,
    turn: Seq<InputItemV>,
    calls: Seq<FunctionCallItemV>,
    instructions: Option<Seq<char>>,
    key: Option<Seq<u8>>,
)
    requires
        user.role == MessageRole::User,
        calls.len() > 0,
        forall|i: int|
            0 <= i < turn.len() ==> !(#[trigger] turn[i] is Message) && !(turn[i] is FunctionCall) && !(
            turn[i] is FunctionCallOutput),
    ensures
        ({
            let items = before + seq![InputItemV::Message(user)] + turn + calls.map_values(
                |f: FunctionCallItemV| InputItemV::FunctionCall(f),
            );
            let msgs = item_msgs(items, instructions, key);
            &&& msgs.len() > 0
            &&& msgs.last() == MsgV {
                role: "assistant"@,
                content: None,
                name: None,
                tool_calls: Some(
                    calls.map_values(
                        |f: FunctionCallItemV|
                            ToolCallV {
                                id: f.call_id,
                                call_type: "function"@,
                                name: f.name,
                                arguments: f.arguments,
                            },
                    ),
                ),
                tool_call_id: None,
                reasoning_content: joined_lines(reasoning_texts_of(turn)),
            }
        }),
{
    let cs = calls.map_values(|f: FunctionCallItemV| InputItemV::FunctionCall(f));
    let items = before + seq![InputItemV::Message(user)] + turn + cs;
    let u = before.len() as int;
    let m = u + 1 + turn.len();
    let n = items.len() as int;
    assert(n == m + calls.len());
    assert(items[u] == InputItemV::Message(user));
    assert forall|i: int| 0 <= i < turn.len() implies items[u + 1 + i] == #[trigger] turn[i] by {}
    assert forall|i: int| 0 <= i < calls.len() implies items[m + i] == InputItemV::FunctionCall(
        #[trigger] calls[i],
    ) by {
        assert(items[m + i] == cs[i]);
    }
    lemma_first_user_at_most(items, u);
    lemma_first_user_bounds(items);
    let us = user_start(items);
    let parts = instruction_parts(instructions) + merged_parts(items, us, key);
    let init = start_state(system_msgs(parts));
    assert(!merges(items[u]));
    assert(run(items, u + 1, us, key, init) == step(run(items, u, us, key, init), items[u], key));
    lemma_turn_reasoning(items, u, turn, us, key, init, turn.len() as int);
    lemma_turn_settled(items, u, turn, us, key, init, turn.len() as int);
    assert(turn.take(turn.len() as int) =~= turn);
    lemma_calls_wait(items, m, calls, us, key, init, calls.len() as int);
    assert(calls.take(calls.len() as int) =~= calls);
    let fin = run(items, n, us, key, init);
    assert(fin.reasoning == joined_lines(reasoning_texts_of(turn)));
    assert(fin.deferred.len() == 0);
    assert(calls.map_values(|f: FunctionCallItemV| tool_call_of(f)) =~= calls.map_values(
        |f: FunctionCallItemV|
            ToolCallV { id: f.call_id, call_type: "function"@, name: f.name, arguments: f.arguments },
    ));
    assert(settle(fin).msgs =~= flush(fin).msgs);
}

} // verus!
