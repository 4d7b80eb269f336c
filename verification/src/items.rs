//! Reading Responses API input items from JSON, and writing them back.
//!
//! An item is read by its `type`: `message`, `function_call`,
//! `function_call_output`, `reasoning` or `compaction`. An item of another
//! type, or one whose members do not have the required shape, reads as
//! [`InputItem::Unknown`], so one malformed item never fails a request.
use vstd::prelude::*;
use crate::json::{
    copy_json, keys_ascending, lemma_first_member_reads_back,
    lemma_get_built, object, object_of, owned, str_eq,
};
use crate::value::{fields_view, group_json_view, json_view, seq_view, Json, JsonV};
use crate::models::{
    BlockV, CompactionItem, CompactionItemV, FunctionCallItem, FunctionCallItemV,
    FunctionCallOutputItem, FunctionCallOutputItemV, FunctionCallOutputValue, Input,
    InputContentBlock, InputItem, InputItemV, InputMessage, InputMessageV, InputReasoning,
    InputReasoningV, MessageRole, OutputValueV, opt_view,
};

verus! {

broadcast use group_json_view;

// ─── The shape of members ───────────────────────────────────────────────

/// An optional string member: absent or `null` is `None`; another non-string fails.
pub open spec fn opt_string_member(v: Option<JsonV>) -> Option<Option<Seq<char>>> {
    match v {
        None => Some(None),
        Some(JsonV::Null) => Some(None),
        Some(JsonV::Str(s)) => Some(Some(s)),
        _ => None,
    }
}

/// A required string member.
pub open spec fn string_member(v: Option<JsonV>) -> Option<Seq<char>> {
    match v {
        Some(JsonV::Str(s)) => Some(s),
        _ => None,
    }
}

/// A string member that defaults to empty when absent.
pub open spec fn string_member_or_empty(v: Option<JsonV>) -> Option<Seq<char>> {
    match v {
        None => Some(Seq::empty()),
        Some(JsonV::Str(s)) => Some(s),
        _ => None,
    }
}

/// An array member that defaults to empty when absent.
pub open spec fn array_member_or_empty(v: Option<JsonV>) -> Option<Seq<JsonV>> {
    match v {
        None => Some(Seq::empty()),
        Some(JsonV::Array(a)) => Some(a),
        _ => None,
    }
}

pub open spec fn role_member(v: Option<JsonV>) -> Option<MessageRole> {
    match v {
        Some(JsonV::Str(s)) => if s == "user"@ {
            Some(MessageRole::User)
        } else if s == "system"@ {
            Some(MessageRole::System)
        } else if s == "developer"@ {
            Some(MessageRole::Developer)
        } else if s == "assistant"@ {
            Some(MessageRole::Assistant)
        } else {
            None
        },
        _ => None,
    }
}

pub open spec fn role_name(r: MessageRole) -> Seq<char> {
    match r {
        MessageRole::User => "user"@,
        MessageRole::System => "system"@,
        MessageRole::Developer => "developer"@,
        MessageRole::Assistant => "assistant"@,
    }
}

/// The members of an object other than `type`.
pub open spec fn without_type(v: JsonV) -> JsonV {
    match v {
        JsonV::Object(f) => JsonV::Object(crate::json::fields_remove(f, "type"@)),
        _ => v,
    }
}

/// How a content block reads.
pub open spec fn block_of(b: JsonV) -> BlockV {
    if b.get_str("type"@) == Some("input_text"@) && b.get_str("text"@) is Some {
        BlockV::Text(b.get_str("text"@)->0)
    } else if b.get_str("type"@) == Some("input_image"@) {
        BlockV::Image(without_type(b))
    } else if b.get_str("type"@) == Some("input_file"@) {
        BlockV::File(without_type(b))
    } else {
        BlockV::Unknown(b)
    }
}

pub open spec fn blocks_of(a: Seq<JsonV>) -> Seq<BlockV> {
    a.map_values(|b: JsonV| block_of(b))
}

pub open spec fn message_of(v: JsonV) -> Option<InputMessageV> {
    let content = match v.get("content"@) {
        None => Some(Seq::<BlockV>::empty()),
        Some(JsonV::Array(a)) => Some(blocks_of(a)),
        _ => None,
    };
    match (role_member(v.get("role"@)), content, opt_string_member(v.get("status"@))) {
        (Some(role), Some(content), Some(status)) => Some(
            InputMessageV { role, content, status },
        ),
        _ => None,
    }
}

pub open spec fn function_call_of(v: JsonV) -> Option<FunctionCallItemV> {
    match (
        string_member(v.get("call_id"@)),
        string_member(v.get("name"@)),
        string_member(v.get("arguments"@)),
        opt_string_member(v.get("id"@)),
        opt_string_member(v.get("status"@)),
    ) {
        (Some(call_id), Some(name), Some(arguments), Some(id), Some(status)) => Some(
            FunctionCallItemV { call_id, name, arguments, id, status },
        ),
        _ => None,
    }
}

pub open spec fn output_member(v: Option<JsonV>) -> Option<OutputValueV> {
    match v {
        Some(JsonV::Str(s)) => Some(OutputValueV::Text(s)),
        Some(JsonV::Array(a)) => Some(OutputValueV::Array(a)),
        _ => None,
    }
}

pub open spec fn function_call_output_of(v: JsonV) -> Option<FunctionCallOutputItemV> {
    match (
        string_member(v.get("call_id"@)),
        output_member(v.get("output"@)),
        opt_string_member(v.get("id"@)),
        opt_string_member(v.get("status"@)),
    ) {
        (Some(call_id), Some(output), Some(id), Some(status)) => Some(
            FunctionCallOutputItemV { call_id, output, id, status },
        ),
        _ => None,
    }
}

pub open spec fn reasoning_of(v: JsonV) -> Option<InputReasoningV> {
    match (
        string_member_or_empty(v.get("id"@)),
        array_member_or_empty(v.get("summary"@)),
        array_member_or_empty(v.get("content"@)),
    ) {
        (Some(id), Some(summary), Some(content)) => Some(InputReasoningV { id, summary, content }),
        _ => None,
    }
}

pub open spec fn compaction_of(v: JsonV) -> Option<CompactionItemV> {
    match (
        string_member_or_empty(v.get("id"@)),
        string_member(v.get("encrypted_content"@)),
    ) {
        (Some(id), Some(encrypted_content)) => Some(CompactionItemV { id, encrypted_content }),
        _ => None,
    }
}

/// How a raw input item reads.
pub open spec fn item_of(v: JsonV) -> InputItemV {
    let t = v.get_str("type"@);
    if t == Some("message"@) {
        match message_of(v) {
            Some(m) => InputItemV::Message(m),
            None => InputItemV::Unknown,
        }
    } else if t == Some("function_call"@) {
        match function_call_of(v) {
            Some(f) => InputItemV::FunctionCall(f),
            None => InputItemV::Unknown,
        }
    } else if t == Some("function_call_output"@) {
        match function_call_output_of(v) {
            Some(f) => InputItemV::FunctionCallOutput(f),
            None => InputItemV::Unknown,
        }
    } else if t == Some("reasoning"@) {
        match reasoning_of(v) {
            Some(r) => InputItemV::Reasoning(r),
            None => InputItemV::Unknown,
        }
    } else if t == Some("compaction"@) {
        match compaction_of(v) {
            Some(c) => InputItemV::Compaction(c),
            None => InputItemV::Unknown,
        }
    } else {
        InputItemV::Unknown
    }
}

// ─── Reading ────────────────────────────────────────────────────────────

fn opt_string_field(v: &Json, key: &str) -> (r: Option<Option<String>>)
    ensures
        match r {
            Some(x) => opt_string_member(v@.get(key@)) == Some(opt_view(x)),
            None => opt_string_member(v@.get(key@)).is_none(),
        },
{
    match v.get(key) {
        None => Some(None),
        Some(Json::Null) => Some(None),
        Some(Json::String(s)) => Some(Some(s.clone())),
        Some(_) => None,
    }
}

fn string_field(v: &Json, key: &str) -> (r: Option<String>)
    ensures
        match r {
            Some(x) => string_member(v@.get(key@)) == Some(x@),
            None => string_member(v@.get(key@)).is_none(),
        },
{
    match v.get(key) {
        Some(Json::String(s)) => Some(s.clone()),
        _ => None,
    }
}

fn string_field_or_empty(v: &Json, key: &str) -> (r: Option<String>)
    ensures
        match r {
            Some(x) => string_member_or_empty(v@.get(key@)) == Some(x@),
            None => string_member_or_empty(v@.get(key@)).is_none(),
        },
{
    match v.get(key) {
        None => Some(String::new()),
        Some(Json::String(s)) => Some(s.clone()),
        Some(_) => None,
    }
}

/// A copy of the elements of an array.
pub fn copy_elems(a: &Vec<Json>) -> (r: Vec<Json>)
    ensures
        seq_view(r@) == seq_view(a@),
{
    let mut r: Vec<Json> = Vec::new();
    let mut i: usize = 0;
    while i < a.len()
        invariant
            i <= a@.len(),
            r@.len() == i,
            forall|k: int| 0 <= k < i ==> json_view(#[trigger] r@[k]) == json_view(a@[k]),
        decreases a.len() - i,
    {
        r.push(copy_json(&a[i]));
        i = i + 1;
    }
    assert(seq_view(r@) =~= seq_view(a@));
    r
}

fn array_field_or_empty(v: &Json, key: &str) -> (r: Option<Vec<Json>>)
    ensures
        match r {
            Some(x) => array_member_or_empty(v@.get(key@)) == Some(seq_view(x@)),
            None => array_member_or_empty(v@.get(key@)).is_none(),
        },
{
    match v.get(key) {
        None => Some(Vec::new()),
        Some(Json::Array(a)) => Some(copy_elems(a)),
        Some(_) => None,
    }
}

fn role_field(v: &Json) -> (r: Option<MessageRole>)
    ensures
        r == role_member(v@.get("role"@)),
{
    match v.get("role") {
        Some(Json::String(s)) => {
            if str_eq(s.as_str(), "user") {
                Some(MessageRole::User)
            } else if str_eq(s.as_str(), "system") {
                Some(MessageRole::System)
            } else if str_eq(s.as_str(), "developer") {
                Some(MessageRole::Developer)
            } else if str_eq(s.as_str(), "assistant") {
                Some(MessageRole::Assistant)
            } else {
                None
            }
        },
        _ => None,
    }
}

fn object_without_type(v: &Json) -> (r: Json)
    ensures
        r@ == without_type(v@),
{
    match copy_json(v) {
        Json::Object(mut g) => {
            let _ = crate::json::remove_field(&mut g, "type");
            Json::Object(g)
        },
        other => other,
    }
}

fn parse_block(b: &Json) -> (r: InputContentBlock)
    ensures
        r@ == block_of(b@),
{
    let t = b.get_str("type");
    let is_text = match t {
        Some(t) => str_eq(t, "input_text"),
        None => false,
    };
    if is_text {
        match b.get_str("text") {
            Some(x) => {
                return InputContentBlock::Text { text: owned(x) };
            },
            None => {},
        }
    }
    match t {
        Some(t) => {
            if str_eq(t, "input_image") {
                InputContentBlock::Image(object_without_type(b))
            } else if str_eq(t, "input_file") {
                InputContentBlock::File(object_without_type(b))
            } else {
                InputContentBlock::Unknown(copy_json(b))
            }
        },
        None => InputContentBlock::Unknown(copy_json(b)),
    }
}

fn parse_blocks(a: &Vec<Json>) -> (r: Vec<InputContentBlock>)
    ensures
        r@.map_values(|x: InputContentBlock| x@) == blocks_of(seq_view(a@)),
{
    let mut r: Vec<InputContentBlock> = Vec::new();
    let mut i: usize = 0;
    while i < a.len()
        invariant
            i <= a@.len(),
            r@.len() == i,
            forall|k: int| 0 <= k < i ==> (#[trigger] r@[k])@ == block_of(json_view(a@[k])),
        decreases a.len() - i,
    {
        r.push(parse_block(&a[i]));
        i = i + 1;
    }
    assert(r@.map_values(|x: InputContentBlock| x@) =~= blocks_of(seq_view(a@)));
    r
}

fn parse_message(v: &Json) -> (r: Option<InputMessage>)
    ensures
        match r {
            Some(m) => message_of(v@) == Some(m@),
            None => message_of(v@).is_none(),
        },
{
    let role = role_field(v);
    let content: Option<Vec<InputContentBlock>> = match v.get("content") {
        None => {
            let e: Vec<InputContentBlock> = Vec::new();
            assert(e@.map_values(|x: InputContentBlock| x@) =~= Seq::<BlockV>::empty());
            Some(e)
        },
        Some(Json::Array(a)) => Some(parse_blocks(a)),
        Some(_) => None,
    };
    let status = opt_string_field(v, "status");
    match (role, content, status) {
        (Some(role), Some(content), Some(status)) => {
            let m = InputMessage { role, content, status };
            Some(m)
        },
        _ => None,
    }
}

fn parse_function_call(v: &Json) -> (r: Option<FunctionCallItem>)
    ensures
        match r {
            Some(f) => function_call_of(v@) == Some(f@),
            None => function_call_of(v@).is_none(),
        },
{
    match (
        string_field(v, "call_id"),
        string_field(v, "name"),
        string_field(v, "arguments"),
        opt_string_field(v, "id"),
        opt_string_field(v, "status"),
    ) {
        (Some(call_id), Some(name), Some(arguments), Some(id), Some(status)) => Some(
            FunctionCallItem { call_id, name, arguments, id, status },
        ),
        _ => None,
    }
}

fn parse_function_call_output(v: &Json) -> (r: Option<FunctionCallOutputItem>)
    ensures
        match r {
            Some(f) => function_call_output_of(v@) == Some(f@),
            None => function_call_output_of(v@).is_none(),
        },
{
    let output = match v.get("output") {
        Some(Json::String(s)) => Some(FunctionCallOutputValue::String(s.clone())),
        Some(Json::Array(a)) => Some(FunctionCallOutputValue::Array(copy_elems(a))),
        _ => None,
    };
    match (string_field(v, "call_id"), output, opt_string_field(v, "id"), opt_string_field(v, "status")) {
        (Some(call_id), Some(output), Some(id), Some(status)) => Some(
            FunctionCallOutputItem { call_id, output, id, status },
        ),
        _ => None,
    }
}

fn parse_reasoning(v: &Json) -> (r: Option<InputReasoning>)
    ensures
        match r {
            Some(x) => reasoning_of(v@) == Some(x@),
            None => reasoning_of(v@).is_none(),
        },
{
    match (
        string_field_or_empty(v, "id"),
        array_field_or_empty(v, "summary"),
        array_field_or_empty(v, "content"),
    ) {
        (Some(id), Some(summary), Some(content)) => Some(InputReasoning { id, summary, content }),
        _ => None,
    }
}

fn parse_compaction(v: &Json) -> (r: Option<CompactionItem>)
    ensures
        match r {
            Some(x) => compaction_of(v@) == Some(x@),
            None => compaction_of(v@).is_none(),
        },
{
    match (string_field_or_empty(v, "id"), string_field(v, "encrypted_content")) {
        (Some(id), Some(encrypted_content)) => Some(CompactionItem { id, encrypted_content }),
        _ => None,
    }
}

/// Reads one raw input item.
pub fn parse_input_item(v: &Json) -> (r: InputItem)
    ensures
        r@ == item_of(v@),
{
    let t = match v.get_str("type") {
        Some(t) => t,
        None => {
            return InputItem::Unknown;
        },
    };
    if str_eq(t, "message") {
        match parse_message(v) {
            Some(m) => InputItem::Message(m),
            None => InputItem::Unknown,
        }
    } else if str_eq(t, "function_call") {
        match parse_function_call(v) {
            Some(f) => InputItem::FunctionCall(f),
            None => InputItem::Unknown,
        }
    } else if str_eq(t, "function_call_output") {
        match parse_function_call_output(v) {
            Some(f) => InputItem::FunctionCallOutput(f),
            None => InputItem::Unknown,
        }
    } else if str_eq(t, "reasoning") {
        match parse_reasoning(v) {
            Some(x) => InputItem::Reasoning(x),
            None => InputItem::Unknown,
        }
    } else if str_eq(t, "compaction") {
        match parse_compaction(v) {
            Some(x) => InputItem::Compaction(x),
            None => InputItem::Unknown,
        }
    } else {
        InputItem::Unknown
    }
}

// ─── Writing ────────────────────────────────────────────────────────────

pub open spec fn opt_text_json(s: Option<Seq<char>>) -> JsonV {
    match s {
        Some(x) => JsonV::Str(x),
        None => JsonV::Null,
    }
}

/// An object payload with `type` set in front of its members, a later
/// member of the same name taking its place (as a JSON map inserts).
pub open spec fn tagged(tag: Seq<char>, payload: JsonV) -> JsonV {
    match payload {
        JsonV::Object(f) => object_of(seq![("type"@, JsonV::Str(tag))] + f),
        _ => payload,
    }
}

/// How a content block is written.
pub open spec fn block_json(b: BlockV) -> JsonV {
    match b {
        BlockV::Text(t) => object_of(seq![("type"@, JsonV::Str("input_text"@)), ("text"@, JsonV::Str(t))]),
        BlockV::Image(v) => tagged("input_image"@, v),
        BlockV::File(v) => tagged("input_file"@, v),
        BlockV::Unknown(v) => v,
    }
}

pub open spec fn blocks_json(bs: Seq<BlockV>) -> Seq<JsonV> {
    bs.map_values(|b: BlockV| block_json(b))
}

/// Whether a content block can be written: an image or file block holds an object.
pub open spec fn block_writable(b: BlockV) -> bool {
    match b {
        BlockV::Image(v) => v is Object,
        BlockV::File(v) => v is Object,
        _ => true,
    }
}

/// Whether an item can be written: it is not `Unknown`, and its blocks can be written.
pub open spec fn item_writable(x: InputItemV) -> bool {
    match x {
        InputItemV::Unknown => false,
        InputItemV::Message(m) => forall|i: int| 0 <= i < m.content.len() ==> block_writable(#[trigger] m.content[i]),
        _ => true,
    }
}

pub open spec fn output_json(v: OutputValueV) -> JsonV {
    match v {
        OutputValueV::Text(t) => JsonV::Str(t),
        OutputValueV::Array(a) => JsonV::Array(a),
    }
}

/// How an input item is written: its members with `type` naming its kind.
pub open spec fn item_json(x: InputItemV) -> JsonV {
    match x {
        InputItemV::Message(m) => object_of(
            seq![
                ("type"@, JsonV::Str("message"@)),
                ("role"@, JsonV::Str(role_name(m.role))),
                ("content"@, JsonV::Array(blocks_json(m.content))),
                ("status"@, opt_text_json(m.status)),
            ],
        ),
        InputItemV::FunctionCall(f) => object_of(
            seq![
                ("type"@, JsonV::Str("function_call"@)),
                ("call_id"@, JsonV::Str(f.call_id)),
                ("name"@, JsonV::Str(f.name)),
                ("arguments"@, JsonV::Str(f.arguments)),
                ("id"@, opt_text_json(f.id)),
                ("status"@, opt_text_json(f.status)),
            ],
        ),
        InputItemV::FunctionCallOutput(o) => object_of(
            seq![
                ("type"@, JsonV::Str("function_call_output"@)),
                ("call_id"@, JsonV::Str(o.call_id)),
                ("output"@, output_json(o.output)),
                ("id"@, opt_text_json(o.id)),
                ("status"@, opt_text_json(o.status)),
            ],
        ),
        InputItemV::Reasoning(r) => object_of(
            seq![
                ("type"@, JsonV::Str("reasoning"@)),
                ("id"@, JsonV::Str(r.id)),
                ("summary"@, JsonV::Array(r.summary)),
                ("content"@, JsonV::Array(r.content)),
            ],
        ),
        InputItemV::Compaction(c) => object_of(
            seq![
                ("type"@, JsonV::Str("compaction"@)),
                ("id"@, JsonV::Str(c.id)),
                ("encrypted_content"@, JsonV::Str(c.encrypted_content)),
            ],
        ),
        InputItemV::Unknown => JsonV::Null,
    }
}

fn jtext(s: &str) -> (r: Json)
    ensures
        r@ == JsonV::Str(s@),
{
    Json::String(owned(s))
}

fn opt_text(s: &Option<String>) -> (r: Json)
    ensures
        r@ == opt_text_json(opt_view(*s)),
{
    match s {
        Some(x) => Json::String(x.clone()),
        None => Json::Null,
    }
}

pub(crate) fn tagged_json(tag: &str, payload: &Json) -> (r: Json)
    requires
        payload@ is Object,
    ensures
        r@ == tagged(tag@, payload@),
{
    match payload {
        Json::Object(f) => {
            let mut pairs: Vec<(String, Json)> = vec![(owned("type"), jtext(tag))];
            let ghost p0 = fields_view(pairs@);
            let mut i: usize = 0;
            while i < f.len()
                invariant
                    i <= f@.len(),
                    p0 == seq![("type"@, JsonV::Str(tag@))],
                    fields_view(pairs@) == p0 + fields_view(f@).take(i as int),
                decreases f.len() - i,
            {
                let ghost before = pairs@;
                pairs.push((f[i].0.clone(), copy_json(&f[i].1)));
                assert(fields_view(pairs@) =~= fields_view(before).push((f@[i as int].0@, f@[i as int].1@)));
                assert(fields_view(f@).take(i + 1) =~= fields_view(f@).take(i as int).push(fields_view(f@)[i as int]));
                i = i + 1;
            }
            assert(fields_view(f@).take(f@.len() as int) =~= fields_view(f@));
            object(pairs)
        },
        _ => Json::Null,
    }
}

fn block_to_json(b: &InputContentBlock) -> (r: Json)
    requires
        block_writable(b@),
    ensures
        r@ == block_json(b@),
{
    match b {
        InputContentBlock::Text { text } => {
            let f = vec![(owned("type"), jtext("input_text")), (owned("text"), Json::String(text.clone()))];
            assert(fields_view(f@) =~= seq![("type"@, JsonV::Str("input_text"@)), ("text"@, JsonV::Str(text@))]);
            object(f)
        },
        InputContentBlock::Image(v) => tagged_json("input_image", v),
        InputContentBlock::File(v) => tagged_json("input_file", v),
        InputContentBlock::Unknown(v) => copy_json(v),
    }
}

fn role_text(r: MessageRole) -> (s: Json)
    ensures
        s@ == JsonV::Str(role_name(r)),
{
    match r {
        MessageRole::User => jtext("user"),
        MessageRole::System => jtext("system"),
        MessageRole::Developer => jtext("developer"),
        MessageRole::Assistant => jtext("assistant"),
    }
}

fn message_to_json(m: &InputMessage) -> (r: Json)
    requires
        item_writable(InputItemV::Message(m@)),
    ensures
        r@ == item_json(InputItemV::Message(m@)),
{
    let ghost cv = m@.content;
    let mut blocks: Vec<Json> = Vec::new();
    let mut i: usize = 0;
    while i < m.content.len()
        invariant
            i <= m.content@.len(),
            cv == m@.content,
            forall|k: int| 0 <= k < cv.len() ==> block_writable(#[trigger] cv[k]),
            seq_view(blocks@) == cv.take(i as int).map_values(|b: BlockV| block_json(b)),
        decreases m.content.len() - i,
    {
        assert(cv[i as int] == m.content@[i as int]@);
        let ghost before = blocks@;
        blocks.push(block_to_json(&m.content[i]));
        assert(seq_view(blocks@) =~= seq_view(before).push(block_json(cv[i as int])));
        assert(cv.take(i + 1).map_values(|b: BlockV| block_json(b)) =~= cv.take(
            i as int,
        ).map_values(|b: BlockV| block_json(b)).push(block_json(cv[i as int])));
        i = i + 1;
    }
    assert(cv.take(cv.len() as int) =~= cv);
    let ghost bv = seq_view(blocks@);
    assert(bv =~= blocks_json(cv));
    let f = vec![
        (owned("type"), jtext("message")),
        (owned("role"), role_text(m.role)),
        (owned("content"), Json::Array(blocks)),
        (owned("status"), opt_text(&m.status)),
    ];
    assert(fields_view(f@) =~= seq![
        ("type"@, JsonV::Str("message"@)),
        ("role"@, JsonV::Str(role_name(m.role))),
        ("content"@, JsonV::Array(bv)),
        ("status"@, opt_text_json(opt_view(m.status))),
    ]);
    object(f)
}

impl InputItem {
    /// Writes the item (see [`item_json`]).
    pub fn to_json(&self) -> (r: Json)
        requires
            item_writable(self@),
        ensures
            r@ == item_json(self@),
    {
        match self {
            InputItem::Message(m) => message_to_json(m),
            InputItem::FunctionCall(c) => {
                let f = vec![
                    (owned("type"), jtext("function_call")),
                    (owned("call_id"), Json::String(c.call_id.clone())),
                    (owned("name"), Json::String(c.name.clone())),
                    (owned("arguments"), Json::String(c.arguments.clone())),
                    (owned("id"), opt_text(&c.id)),
                    (owned("status"), opt_text(&c.status)),
                ];
                assert(fields_view(f@) =~= seq![
                    ("type"@, JsonV::Str("function_call"@)),
                    ("call_id"@, JsonV::Str(c.call_id@)),
                    ("name"@, JsonV::Str(c.name@)),
                    ("arguments"@, JsonV::Str(c.arguments@)),
                    ("id"@, opt_text_json(opt_view(c.id))),
                    ("status"@, opt_text_json(opt_view(c.status))),
                ]);
                object(f)
            },
            InputItem::FunctionCallOutput(o) => {
                let out = match &o.output {
                    FunctionCallOutputValue::String(t) => Json::String(t.clone()),
                    FunctionCallOutputValue::Array(a) => Json::Array(copy_elems(a)),
                };
                let ghost ov = out@;
                assert(ov == output_json(o@.output));
                let f = vec![
                    (owned("type"), jtext("function_call_output")),
                    (owned("call_id"), Json::String(o.call_id.clone())),
                    (owned("output"), out),
                    (owned("id"), opt_text(&o.id)),
                    (owned("status"), opt_text(&o.status)),
                ];
                assert(fields_view(f@) =~= seq![
                    ("type"@, JsonV::Str("function_call_output"@)),
                    ("call_id"@, JsonV::Str(o.call_id@)),
                    ("output"@, ov),
                    ("id"@, opt_text_json(opt_view(o.id))),
                    ("status"@, opt_text_json(opt_view(o.status))),
                ]);
                object(f)
            },
            InputItem::Reasoning(x) => {
                let f = vec![
                    (owned("type"), jtext("reasoning")),
                    (owned("id"), Json::String(x.id.clone())),
                    (owned("summary"), Json::Array(copy_elems(&x.summary))),
                    (owned("content"), Json::Array(copy_elems(&x.content))),
                ];
                assert(fields_view(f@) =~= seq![
                    ("type"@, JsonV::Str("reasoning"@)),
                    ("id"@, JsonV::Str(x.id@)),
                    ("summary"@, JsonV::Array(seq_view(x.summary@))),
                    ("content"@, JsonV::Array(seq_view(x.content@))),
                ]);
                object(f)
            },
            InputItem::Compaction(c) => {
                let f = vec![
                    (owned("type"), jtext("compaction")),
                    (owned("id"), Json::String(c.id.clone())),
                    (owned("encrypted_content"), Json::String(c.encrypted_content.clone())),
                ];
                assert(fields_view(f@) =~= seq![
                    ("type"@, JsonV::Str("compaction"@)),
                    ("id"@, JsonV::Str(c.id@)),
                    ("encrypted_content"@, JsonV::Str(c.encrypted_content@)),
                ]);
                object(f)
            },
            InputItem::Unknown => Json::Null,
        }
    }
}

impl Input {
    /// An input array of the given items, each written as JSON.
    pub fn from_items(items: Vec<InputItem>) -> (r: Input)
        requires
            forall|i: int| 0 <= i < items@.len() ==> item_writable(#[trigger] items@[i]@),
        ensures
            r matches Input::Array(a) && seq_view(a@) == items@.map_values(|x: InputItem| item_json(x@)),
    {
        let ghost iv = items@;
        let mut out: Vec<Json> = Vec::new();
        let mut i: usize = 0;
        while i < items.len()
            invariant
                i <= items@.len(),
                iv == items@,
                forall|k: int| 0 <= k < iv.len() ==> item_writable(#[trigger] iv[k]@),
                seq_view(out@) == iv.take(i as int).map_values(|x: InputItem| item_json(x@)),
            decreases items.len() - i,
        {
            let ghost before = out@;
            out.push(items[i].to_json());
            assert(seq_view(out@) =~= seq_view(before).push(item_json(iv[i as int]@)));
            assert(iv.take(i + 1).map_values(|x: InputItem| item_json(x@)) =~= iv.take(i as int).map_values(
                |x: InputItem| item_json(x@),
            ).push(item_json(iv[i as int]@)));
            i = i + 1;
        }
        assert(iv.take(iv.len() as int) =~= iv);
        Input::Array(out)
    }
}


// ─── What a write reads back as ─────────────────────────────────────────

/// A payload that reads back as itself: an object whose member names
/// ascend (as a JSON map keeps them) and which has no `type` member.
pub open spec fn payload_canonical(v: JsonV) -> bool {
    match v {
        JsonV::Object(f) => keys_ascending(f) && forall|i: int| 0 <= i < f.len() ==> (#[trigger] f[i]).0
            != "type"@,
        _ => false,
    }
}

/// A block that reads back as itself: text; an image or file whose payload
/// is canonical; or a value that reads as no known block.
pub open spec fn block_canonical(b: BlockV) -> bool {
    match b {
        BlockV::Text(_) => true,
        BlockV::Image(v) => payload_canonical(v),
        BlockV::File(v) => payload_canonical(v),
        BlockV::Unknown(v) => block_of(v) == BlockV::Unknown(v),
    }
}

/// An item that reads back as itself: any item but `Unknown`, a message
/// only where each of its blocks is canonical.
pub open spec fn item_canonical(x: InputItemV) -> bool {
    match x {
        InputItemV::Unknown => false,
        InputItemV::Message(m) => forall|i: int| 0 <= i < m.content.len() ==> block_canonical(
            #[trigger] m.content[i],
        ),
        _ => true,
    }
}

proof fn lemma_block_reads_back(b: BlockV)
    requires
        block_canonical(b),
    ensures
        block_of(block_json(b)) == b,
{
    reveal_strlit("type");
    reveal_strlit("text");
    reveal_strlit("input_text");
    reveal_strlit("input_image");
    reveal_strlit("input_file");
    assert("type"@[1] != "text"@[1]);
    assert("input_file"@[6] != "input_text"@[6]);
    match b {
        BlockV::Text(t) => {
            let s = seq![("type"@, JsonV::Str("input_text"@)), ("text"@, JsonV::Str(t))];
            lemma_get_built(s, 0);
            lemma_get_built(s, 1);
        },
        BlockV::Image(v) => {
            let f = v->Object_0;
            lemma_first_member_reads_back(("type"@, JsonV::Str("input_image"@)), f);
        },
        BlockV::File(v) => {
            let f = v->Object_0;
            lemma_first_member_reads_back(("type"@, JsonV::Str("input_file"@)), f);
        },
        BlockV::Unknown(v) => {},
    }
}

proof fn lemma_role_reads_back(r: MessageRole)
    ensures
        role_member(Some(JsonV::Str(role_name(r)))) == Some(r),
{
    reveal_strlit("user");
    reveal_strlit("system");
    reveal_strlit("developer");
    reveal_strlit("assistant");
    assert("developer"@[0] != "assistant"@[0]);
    assert("user"@.len() == 4 && "system"@.len() == 6 && "developer"@.len() == 9);
    assert("assistant"@.len() == 9);
}

proof fn lemma_message_reads_back(m: InputMessageV)
    requires
        forall|i: int| 0 <= i < m.content.len() ==> block_canonical(#[trigger] m.content[i]),
    ensures
        message_of(item_json(InputItemV::Message(m))) == Some(m),
        item_json(InputItemV::Message(m)).get_str("type"@) == Some("message"@),
{
    reveal_strlit("type");
    reveal_strlit("role");
    reveal_strlit("content");
    reveal_strlit("status");
    assert("type"@[0] != "role"@[0]);
    assert("type"@.len() == 4 && "content"@.len() == 7 && "status"@.len() == 6);
    let s = seq![
        ("type"@, JsonV::Str("message"@)),
        ("role"@, JsonV::Str(role_name(m.role))),
        ("content"@, JsonV::Array(blocks_json(m.content))),
        ("status"@, opt_text_json(m.status)),
    ];
    lemma_get_built(s, 0);
    lemma_get_built(s, 1);
    lemma_get_built(s, 2);
    lemma_get_built(s, 3);
    lemma_role_reads_back(m.role);
    assert forall|i: int| 0 <= i < m.content.len() implies #[trigger] blocks_of(
        blocks_json(m.content),
    )[i] == m.content[i] by {
        lemma_block_reads_back(m.content[i]);
    }
    assert(blocks_of(blocks_json(m.content)) =~= m.content);
}

proof fn lemma_function_call_reads_back(f: FunctionCallItemV)
    ensures
        function_call_of(item_json(InputItemV::FunctionCall(f))) == Some(f),
        item_json(InputItemV::FunctionCall(f)).get_str("type"@) == Some("function_call"@),
{
    reveal_strlit("type");
    reveal_strlit("call_id");
    reveal_strlit("name");
    reveal_strlit("arguments");
    reveal_strlit("id");
    reveal_strlit("status");
    assert("type"@[0] != "name"@[0]);
    assert("type"@.len() == 4 && "call_id"@.len() == 7 && "arguments"@.len() == 9);
    assert("id"@.len() == 2 && "status"@.len() == 6);
    let s = seq![
        ("type"@, JsonV::Str("function_call"@)),
        ("call_id"@, JsonV::Str(f.call_id)),
        ("name"@, JsonV::Str(f.name)),
        ("arguments"@, JsonV::Str(f.arguments)),
        ("id"@, opt_text_json(f.id)),
        ("status"@, opt_text_json(f.status)),
    ];
    lemma_get_built(s, 0);
    lemma_get_built(s, 1);
    lemma_get_built(s, 2);
    lemma_get_built(s, 3);
    lemma_get_built(s, 4);
    lemma_get_built(s, 5);
}

proof fn lemma_function_call_output_reads_back(o: FunctionCallOutputItemV)
    ensures
        function_call_output_of(item_json(InputItemV::FunctionCallOutput(o))) == Some(o),
        item_json(InputItemV::FunctionCallOutput(o)).get_str("type"@) == Some(
            "function_call_output"@,
        ),
{
    reveal_strlit("type");
    reveal_strlit("call_id");
    reveal_strlit("output");
    reveal_strlit("id");
    reveal_strlit("status");
    assert("status"@[0] != "output"@[0]);
    assert("type"@.len() == 4 && "call_id"@.len() == 7 && "output"@.len() == 6);
    assert("id"@.len() == 2 && "status"@.len() == 6);
    let s = seq![
        ("type"@, JsonV::Str("function_call_output"@)),
        ("call_id"@, JsonV::Str(o.call_id)),
        ("output"@, output_json(o.output)),
        ("id"@, opt_text_json(o.id)),
        ("status"@, opt_text_json(o.status)),
    ];
    lemma_get_built(s, 0);
    lemma_get_built(s, 1);
    lemma_get_built(s, 2);
    lemma_get_built(s, 3);
    lemma_get_built(s, 4);
}

proof fn lemma_reasoning_reads_back(r: InputReasoningV)
    ensures
        reasoning_of(item_json(InputItemV::Reasoning(r))) == Some(r),
        item_json(InputItemV::Reasoning(r)).get_str("type"@) == Some("reasoning"@),
{
    reveal_strlit("type");
    reveal_strlit("id");
    reveal_strlit("summary");
    reveal_strlit("content");
    assert("content"@[0] != "summary"@[0]);
    assert("type"@.len() == 4 && "id"@.len() == 2 && "summary"@.len() == 7);
    let s = seq![
        ("type"@, JsonV::Str("reasoning"@)),
        ("id"@, JsonV::Str(r.id)),
        ("summary"@, JsonV::Array(r.summary)),
        ("content"@, JsonV::Array(r.content)),
    ];
    lemma_get_built(s, 0);
    lemma_get_built(s, 1);
    lemma_get_built(s, 2);
    lemma_get_built(s, 3);
}

proof fn lemma_compaction_reads_back(c: CompactionItemV)
    ensures
        compaction_of(item_json(InputItemV::Compaction(c))) == Some(c),
        item_json(InputItemV::Compaction(c)).get_str("type"@) == Some("compaction"@),
{
    reveal_strlit("type");
    reveal_strlit("id");
    reveal_strlit("encrypted_content");
    assert("type"@.len() == 4 && "id"@.len() == 2 && "encrypted_content"@.len() == 17);
    let s = seq![
        ("type"@, JsonV::Str("compaction"@)),
        ("id"@, JsonV::Str(c.id)),
        ("encrypted_content"@, JsonV::Str(c.encrypted_content)),
    ];
    lemma_get_built(s, 0);
    lemma_get_built(s, 1);
    lemma_get_built(s, 2);
}

/// Writing an input item and reading it back gives the item: for every
/// item but `Unknown` whose image and file payloads are objects with
/// ascending member names and no `type` member, and whose unknown blocks
/// read as unknown (see [`item_canonical`]).
pub proof fn law_item_reads_back(x: InputItemV)
    requires
        item_canonical(x),
    ensures
        item_writable(x),
        item_of(item_json(x)) == x,
{
    reveal_strlit("message");
    reveal_strlit("function_call");
    reveal_strlit("function_call_output");
    reveal_strlit("reasoning");
    reveal_strlit("compaction");
    assert("message"@.len() == 7 && "function_call"@.len() == 13);
    assert("function_call_output"@.len() == 20 && "reasoning"@.len() == 9);
    assert("compaction"@.len() == 10);
    match x {
        InputItemV::Message(m) => {
            assert forall|i: int| 0 <= i < m.content.len() implies block_writable(
                #[trigger] m.content[i],
            ) by {
                assert(block_canonical(m.content[i]));
            }
            lemma_message_reads_back(m);
        },
        InputItemV::FunctionCall(f) => lemma_function_call_reads_back(f),
        InputItemV::FunctionCallOutput(o) => lemma_function_call_output_reads_back(o),
        InputItemV::Reasoning(r) => lemma_reasoning_reads_back(r),
        InputItemV::Compaction(c) => lemma_compaction_reads_back(c),
        InputItemV::Unknown => {},
    }
}

} // verus!
