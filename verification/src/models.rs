//! The wire types of both APIs: Responses API requests, items and responses,
//! and Chat Completions requests, responses and stream chunks.
//!
//! JSON payloads that the proxy carries without reading them are kept as
//! [`Json`]; numbers that are floating point on the wire are kept as
//! [`Number`], whose text the proxy hands on unchanged.
use vstd::prelude::*;
use crate::value::{seq_view, Json, JsonV, Number};

verus! {

// ── Responses API request ───────────────────────────────────────────

#[derive(Debug)]
pub struct ResponsesRequest {
    pub model: String,
    pub input: Input,
    pub instructions: Option<String>,
    pub temperature: Option<Number>,
    pub top_p: Option<Number>,
    pub max_output_tokens: Option<u32>,
    pub tools: Option<Vec<ToolParam>>,
    pub tool_choice: Option<Json>,
    pub stream: Option<bool>,
    pub stop: Option<Stop>,
    pub top_logprobs: Option<u32>,
    pub previous_response_id: Option<String>,
    pub store: Option<bool>,
    pub metadata: Option<Vec<(String, Json)>>,
    pub reasoning: Option<Json>,
    pub text: Option<Json>,
}

/// The `input` field: a plain string, or an array of raw items that are
/// read one by one, so that one malformed item does not fail the request.
#[derive(Debug)]
pub enum Input {
    String(String),
    Array(Vec<Json>),
}

impl Input {
    pub fn is_empty(&self) -> (r: bool)
        ensures
            r == match self {
                Input::String(s) => s@.len() == 0,
                Input::Array(a) => a@.len() == 0,
            },
    {
        match self {
            Input::String(s) => s.as_str().is_empty(),
            Input::Array(a) => a.len() == 0,
        }
    }
}

/// A single item of the `input` array, told apart by its `type`.
#[derive(Debug)]
pub enum InputItem {
    Message(InputMessage),
    FunctionCall(FunctionCallItem),
    FunctionCallOutput(FunctionCallOutputItem),
    Reasoning(InputReasoning),
    Compaction(CompactionItem),
    Unknown,
}

#[derive(Debug)]
pub struct InputMessage {
    pub role: MessageRole,
    pub content: Vec<InputContentBlock>,
    pub status: Option<String>,
}

#[derive(Debug, PartialEq, Eq, Structural, Clone, Copy)]
pub enum MessageRole {
    User,
    System,
    Developer,
    Assistant,
}

/// One content block of a message.
#[derive(Debug)]
pub enum InputContentBlock {
    Text { text: String },
    /// An `input_image` block: its members other than `type`.
    Image(Json),
    /// An `input_file` block: its members other than `type`.
    File(Json),
    /// Any other block, whole.
    Unknown(Json),
}

#[derive(Debug, Clone)]
pub struct FunctionCallItem {
    pub call_id: String,
    pub name: String,
    pub arguments: String,
    pub id: Option<String>,
    pub status: Option<String>,
}

#[derive(Debug)]
pub struct FunctionCallOutputItem {
    pub call_id: String,
    pub output: FunctionCallOutputValue,
    pub id: Option<String>,
    pub status: Option<String>,
}

#[derive(Debug)]
pub enum FunctionCallOutputValue {
    String(String),
    Array(Vec<Json>),
}

#[derive(Debug)]
pub struct InputReasoning {
    pub id: String,
    pub summary: Vec<Json>,
    pub content: Vec<Json>,
}

/// A tool definition in the flat Responses API form.
#[derive(Debug)]
pub struct ToolParam {
    pub tool_type: String,
    pub name: Option<String>,
    pub description: Option<String>,
    pub parameters: Option<Json>,
    pub strict: Option<bool>,
}

#[derive(Debug, Clone)]
pub enum Stop {
    Single(String),
    Multiple(Vec<String>),
}

pub ghost enum StopV {
    Single(Seq<char>),
    Multiple(Seq<Seq<char>>),
}

impl View for Stop {
    type V = StopV;

    open spec fn view(&self) -> StopV {
        match self {
            Stop::Single(s) => StopV::Single(s@),
            Stop::Multiple(v) => StopV::Multiple(v@.map_values(|x: String| x@)),
        }
    }
}

// ── Responses API response ──────────────────────────────────────────

#[derive(Debug)]
pub struct ResponsesResponse {
    pub id: String,
    /// Always `response`.
    pub object: String,
    /// Seconds since the epoch, the whole number the provider gave; the
    /// answer to the client writes it as a floating-point number, which
    /// is left to the program that serves it.
    pub created_at: u64,
    pub status: String,
    pub model: String,
    pub output: Vec<OutputItem>,
    pub usage: Option<ResponseUsage>,
    pub incomplete_details: Option<Json>,
    pub error: Option<Json>,
}

// ── Compaction ──────────────────────────────────────────────────────

#[derive(Debug)]
pub struct CompactRequest {
    pub model: String,
    pub input: Option<Input>,
    pub instructions: Option<String>,
    pub previous_response_id: Option<String>,
}

#[derive(Debug)]
pub struct CompactedResponse {
    pub id: String,
    /// Always `response.compaction`.
    pub object: String,
    pub created_at: u64,
    pub output: Vec<CompactedOutputItem>,
    pub usage: Option<ResponseUsage>,
}

#[derive(Debug)]
pub enum CompactedOutputItem {
    /// A message item, without its `type` member.
    Message(Json),
    Compaction(CompactionItem),
}

#[derive(Debug, Clone)]
pub struct CompactionItem {
    pub id: String,
    pub encrypted_content: String,
}

/// An output item, told apart by its `type`.
#[derive(Debug)]
pub enum OutputItem {
    Message(OutputMessage),
    FunctionCall(OutputFunctionCall),
    Reasoning(OutputReasoning),
}

#[derive(Debug)]
pub struct OutputReasoning {
    pub id: String,
    pub summary: Vec<Json>,
    pub content: Vec<Json>,
}

#[derive(Debug)]
pub struct OutputMessage {
    pub id: String,
    /// Always `assistant`.
    pub role: String,
    pub status: String,
    pub content: Vec<OutputContentBlock>,
}

#[derive(Debug)]
pub enum OutputContentBlock {
    Text { text: String, annotations: Vec<Json> },
    Refusal { refusal: String },
}

#[derive(Debug, Clone)]
pub struct OutputFunctionCall {
    pub id: String,
    pub call_id: String,
    pub name: String,
    pub arguments: String,
    pub status: String,
}

#[derive(Debug, PartialEq, Eq, Structural, Clone, Copy)]
pub struct ResponseUsage {
    pub input_tokens: u32,
    pub output_tokens: u32,
    pub total_tokens: u32,
    pub input_tokens_details: InputTokensDetails,
    pub output_tokens_details: OutputTokensDetails,
}

#[derive(Debug, PartialEq, Eq, Structural, Clone, Copy)]
pub struct InputTokensDetails {
    pub cached_tokens: u32,
}

#[derive(Debug, PartialEq, Eq, Structural, Clone, Copy)]
pub struct OutputTokensDetails {
    pub reasoning_tokens: u32,
}

// ── Chat Completions request ────────────────────────────────────────

#[derive(Debug)]
pub struct ChatCompletionRequest {
    pub model: String,
    pub messages: Vec<ChatMessage>,
    pub temperature: Option<Number>,
    pub top_p: Option<Number>,
    pub max_tokens: Option<u32>,
    pub tools: Option<Vec<ChatTool>>,
    pub tool_choice: Option<Json>,
    pub stream: Option<bool>,
    pub response_format: Option<Json>,
    pub stop: Option<Stop>,
    pub logprobs: Option<bool>,
    pub top_logprobs: Option<u32>,
    pub reasoning_effort: Option<String>,
    pub thinking: Option<ThinkingConfig>,
}

#[derive(Debug, Clone)]
pub struct ThinkingConfig {
    pub thinking_type: String,
}

#[derive(Debug, Clone)]
pub struct ChatMessage {
    pub role: String,
    pub content: ChatMessageContent,
    pub name: Option<String>,
    pub tool_calls: Option<Vec<ChatToolCall>>,
    pub tool_call_id: Option<String>,
    pub reasoning_content: Option<String>,
}

#[derive(Debug, Clone)]
pub enum ChatMessageContent {
    String(String),
    /// For assistant messages that carry only tool calls.
    Null,
}

impl ChatMessageContent {
    pub fn as_str(&self) -> (r: Option<&str>)
        ensures
            match self {
                ChatMessageContent::String(s) => r is Some && r->0@ == s@,
                ChatMessageContent::Null => r.is_none(),
            },
    {
        match self {
            ChatMessageContent::String(s) => Some(s.as_str()),
            ChatMessageContent::Null => None,
        }
    }
}

#[derive(Debug, Clone)]
pub struct ChatToolCall {
    pub id: String,
    /// Always `function`.
    pub call_type: String,
    pub function: ChatFunctionCall,
}

#[derive(Debug, Clone)]
pub struct ChatFunctionCall {
    pub name: String,
    pub arguments: String,
}

#[derive(Debug)]
pub struct ChatTool {
    /// Always `function`.
    pub tool_type: String,
    pub function: ChatFunctionDef,
}

#[derive(Debug)]
pub struct ChatFunctionDef {
    pub name: String,
    pub description: Option<String>,
    pub parameters: Option<Json>,
    pub strict: Option<bool>,
}

// ── Chat Completions response ───────────────────────────────────────

#[derive(Debug)]
pub struct ChatCompletionResponse {
    pub id: String,
    pub object: String,
    pub created: u64,
    pub model: String,
    pub choices: Vec<ChatChoice>,
    pub usage: Option<ChatUsage>,
    pub error: Option<ChatError>,
}

#[derive(Debug)]
pub struct ChatChoice {
    pub index: u32,
    pub message: ChatResponseMessage,
    pub finish_reason: Option<String>,
}

#[derive(Debug)]
pub struct ChatResponseMessage {
    pub role: Option<String>,
    pub content: Option<String>,
    pub reasoning_content: Option<String>,
    pub tool_calls: Option<Vec<ChatToolCall>>,
}

#[derive(Debug)]
pub struct ChatUsage {
    pub prompt_tokens: u32,
    pub completion_tokens: u32,
    pub total_tokens: u32,
    pub completion_tokens_details: Option<Json>,
    pub prompt_tokens_details: Option<Json>,
    pub prompt_cache_hit_tokens: Option<u32>,
    pub prompt_cache_miss_tokens: Option<u32>,
}

#[derive(Debug, Clone)]
pub struct ChatError {
    pub message: String,
    pub code: Option<String>,
}

// ── Stream chunks ───────────────────────────────────────────────────

#[derive(Debug)]
pub struct ChatCompletionChunk {
    pub id: Option<String>,
    pub object: Option<String>,
    pub created: Option<u64>,
    pub model: Option<String>,
    pub choices: Vec<ChatChunkChoice>,
    pub usage: Option<ChatUsage>,
}

#[derive(Debug)]
pub struct ChatChunkChoice {
    pub index: u32,
    pub delta: Option<ChatChunkDelta>,
    pub finish_reason: Option<String>,
}

#[derive(Debug)]
pub struct ChatChunkDelta {
    pub role: Option<String>,
    pub content: Option<String>,
    pub tool_calls: Option<Vec<Json>>,
}

// ── Models ──────────────────────────────────────────────────────────

pub open spec fn opt_view(s: Option<String>) -> Option<Seq<char>> {
    match s {
        Some(x) => Some(x@),
        None => None,
    }
}

pub open spec fn opt_json_view(s: Option<Json>) -> Option<JsonV> {
    match s {
        Some(x) => Some(x@),
        None => None,
    }
}

pub ghost enum BlockV {
    Text(Seq<char>),
    Image(JsonV),
    File(JsonV),
    Unknown(JsonV),
}

impl View for InputContentBlock {
    type V = BlockV;

    open spec fn view(&self) -> BlockV {
        match self {
            InputContentBlock::Text { text } => BlockV::Text(text@),
            InputContentBlock::Image(v) => BlockV::Image(v@),
            InputContentBlock::File(v) => BlockV::File(v@),
            InputContentBlock::Unknown(v) => BlockV::Unknown(v@),
        }
    }
}

pub ghost struct InputMessageV {
    pub role: MessageRole,
    pub content: Seq<BlockV>,
    pub status: Option<Seq<char>>,
}

impl View for InputMessage {
    type V = InputMessageV;

    open spec fn view(&self) -> InputMessageV {
        InputMessageV {
            role: self.role,
            content: self.content@.map_values(|b: InputContentBlock| b@),
            status: opt_view(self.status),
        }
    }
}

pub ghost struct FunctionCallItemV {
    pub call_id: Seq<char>,
    pub name: Seq<char>,
    pub arguments: Seq<char>,
    pub id: Option<Seq<char>>,
    pub status: Option<Seq<char>>,
}

impl View for FunctionCallItem {
    type V = FunctionCallItemV;

    open spec fn view(&self) -> FunctionCallItemV {
        FunctionCallItemV {
            call_id: self.call_id@,
            name: self.name@,
            arguments: self.arguments@,
            id: opt_view(self.id),
            status: opt_view(self.status),
        }
    }
}

pub ghost enum OutputValueV {
    Text(Seq<char>),
    Array(Seq<JsonV>),
}

pub ghost struct FunctionCallOutputItemV {
    pub call_id: Seq<char>,
    pub output: OutputValueV,
    pub id: Option<Seq<char>>,
    pub status: Option<Seq<char>>,
}

impl View for FunctionCallOutputItem {
    type V = FunctionCallOutputItemV;

    open spec fn view(&self) -> FunctionCallOutputItemV {
        FunctionCallOutputItemV {
            call_id: self.call_id@,
            output: match self.output {
                FunctionCallOutputValue::String(s) => OutputValueV::Text(s@),
                FunctionCallOutputValue::Array(a) => OutputValueV::Array(seq_view(a@)),
            },
            id: opt_view(self.id),
            status: opt_view(self.status),
        }
    }
}

pub ghost struct InputReasoningV {
    pub id: Seq<char>,
    pub summary: Seq<JsonV>,
    pub content: Seq<JsonV>,
}

impl View for InputReasoning {
    type V = InputReasoningV;

    open spec fn view(&self) -> InputReasoningV {
        InputReasoningV {
            id: self.id@,
            summary: seq_view(self.summary@),
            content: seq_view(self.content@),
        }
    }
}

pub ghost struct CompactionItemV {
    pub id: Seq<char>,
    pub encrypted_content: Seq<char>,
}

impl View for CompactionItem {
    type V = CompactionItemV;

    open spec fn view(&self) -> CompactionItemV {
        CompactionItemV { id: self.id@, encrypted_content: self.encrypted_content@ }
    }
}

pub ghost enum InputItemV {
    Message(InputMessageV),
    FunctionCall(FunctionCallItemV),
    FunctionCallOutput(FunctionCallOutputItemV),
    Reasoning(InputReasoningV),
    Compaction(CompactionItemV),
    Unknown,
}

impl View for InputItem {
    type V = InputItemV;

    open spec fn view(&self) -> InputItemV {
        match self {
            InputItem::Message(m) => InputItemV::Message(m@),
            InputItem::FunctionCall(f) => InputItemV::FunctionCall(f@),
            InputItem::FunctionCallOutput(f) => InputItemV::FunctionCallOutput(f@),
            InputItem::Reasoning(r) => InputItemV::Reasoning(r@),
            InputItem::Compaction(c) => InputItemV::Compaction(c@),
            InputItem::Unknown => InputItemV::Unknown,
        }
    }
}

pub ghost struct ToolCallV {
    pub id: Seq<char>,
    pub call_type: Seq<char>,
    pub name: Seq<char>,
    pub arguments: Seq<char>,
}

impl View for ChatToolCall {
    type V = ToolCallV;

    open spec fn view(&self) -> ToolCallV {
        ToolCallV {
            id: self.id@,
            call_type: self.call_type@,
            name: self.function.name@,
            arguments: self.function.arguments@,
        }
    }
}

pub open spec fn calls_view(s: Seq<ChatToolCall>) -> Seq<ToolCallV> {
    s.map_values(|c: ChatToolCall| c@)
}

/// The model of a Chat message: `content` is `None` for a null content.
pub ghost struct MsgV {
    pub role: Seq<char>,
    pub content: Option<Seq<char>>,
    pub name: Option<Seq<char>>,
    pub tool_calls: Option<Seq<ToolCallV>>,
    pub tool_call_id: Option<Seq<char>>,
    pub reasoning_content: Option<Seq<char>>,
}

impl View for ChatMessage {
    type V = MsgV;

    open spec fn view(&self) -> MsgV {
        MsgV {
            role: self.role@,
            content: match self.content {
                ChatMessageContent::String(s) => Some(s@),
                ChatMessageContent::Null => None,
            },
            name: opt_view(self.name),
            tool_calls: match self.tool_calls {
                Some(v) => Some(calls_view(v@)),
                None => None,
            },
            tool_call_id: opt_view(self.tool_call_id),
            reasoning_content: opt_view(self.reasoning_content),
        }
    }
}

pub open spec fn msgs_view(s: Seq<ChatMessage>) -> Seq<MsgV> {
    s.map_values(|m: ChatMessage| m@)
}

pub ghost struct ChatToolV {
    pub tool_type: Seq<char>,
    pub name: Seq<char>,
    pub description: Option<Seq<char>>,
    pub parameters: Option<JsonV>,
    pub strict: Option<bool>,
}

impl View for ChatTool {
    type V = ChatToolV;

    open spec fn view(&self) -> ChatToolV {
        ChatToolV {
            tool_type: self.tool_type@,
            name: self.function.name@,
            description: opt_view(self.function.description),
            parameters: opt_json_view(self.function.parameters),
            strict: self.function.strict,
        }
    }
}

pub ghost struct ToolParamV {
    pub tool_type: Seq<char>,
    pub name: Option<Seq<char>>,
    pub description: Option<Seq<char>>,
    pub parameters: Option<JsonV>,
    pub strict: Option<bool>,
}

impl View for ToolParam {
    type V = ToolParamV;

    open spec fn view(&self) -> ToolParamV {
        ToolParamV {
            tool_type: self.tool_type@,
            name: opt_view(self.name),
            description: opt_view(self.description),
            parameters: opt_json_view(self.parameters),
            strict: self.strict,
        }
    }
}

pub ghost enum OutBlockV {
    Text { text: Seq<char>, annotations: Seq<JsonV> },
    Refusal { refusal: Seq<char> },
}

impl View for OutputContentBlock {
    type V = OutBlockV;

    open spec fn view(&self) -> OutBlockV {
        match self {
            OutputContentBlock::Text { text, annotations } => OutBlockV::Text {
                text: text@,
                annotations: seq_view(annotations@),
            },
            OutputContentBlock::Refusal { refusal } => OutBlockV::Refusal { refusal: refusal@ },
        }
    }
}

pub ghost enum OutputItemV {
    Message { id: Seq<char>, role: Seq<char>, status: Seq<char>, content: Seq<OutBlockV> },
    FunctionCall {
        id: Seq<char>,
        call_id: Seq<char>,
        name: Seq<char>,
        arguments: Seq<char>,
        status: Seq<char>,
    },
    Reasoning { id: Seq<char>, summary: Seq<JsonV>, content: Seq<JsonV> },
}

impl View for OutputItem {
    type V = OutputItemV;

    open spec fn view(&self) -> OutputItemV {
        match self {
            OutputItem::Message(m) => OutputItemV::Message {
                id: m.id@,
                role: m.role@,
                status: m.status@,
                content: m.content@.map_values(|b: OutputContentBlock| b@),
            },
            OutputItem::FunctionCall(f) => OutputItemV::FunctionCall {
                id: f.id@,
                call_id: f.call_id@,
                name: f.name@,
                arguments: f.arguments@,
                status: f.status@,
            },
            OutputItem::Reasoning(r) => OutputItemV::Reasoning {
                id: r.id@,
                summary: seq_view(r.summary@),
                content: seq_view(r.content@),
            },
        }
    }
}

pub ghost struct ResponsesResponseV {
    pub id: Seq<char>,
    pub object: Seq<char>,
    pub created_at: u64,
    pub status: Seq<char>,
    pub model: Seq<char>,
    pub output: Seq<OutputItemV>,
    pub usage: Option<ResponseUsage>,
    pub incomplete_details: Option<JsonV>,
    pub error: Option<JsonV>,
}

impl View for ResponsesResponse {
    type V = ResponsesResponseV;

    open spec fn view(&self) -> ResponsesResponseV {
        ResponsesResponseV {
            id: self.id@,
            object: self.object@,
            created_at: self.created_at,
            status: self.status@,
            model: self.model@,
            output: self.output@.map_values(|o: OutputItem| o@),
            usage: self.usage,
            incomplete_details: opt_json_view(self.incomplete_details),
            error: opt_json_view(self.error),
        }
    }
}

} // verus!
