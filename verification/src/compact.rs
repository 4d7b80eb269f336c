//! Compaction: summarizing a conversation into one encrypted item.
//!
//! The conversation after the last compaction item is written out as
//! tagged text, tool calls beside their outputs, and handed to the model
//! with the previous summary; the answer becomes the new compaction item,
//! returned after the user messages of the request.
use vstd::prelude::*;
use crate::convert_request::{key_view, summary_of, summary_text};
use crate::convert_response::{response_usage, usage_of};
use crate::crypto::{aes_gcm_sealed, decrypted, encrypt, hex_text, P_MAX};
use crate::ids::{is_id, new_id};
use crate::items::without_type;
use crate::json::{copy_json, object, object_of, owned, remove_field, str_eq};
use crate::jsonio::{json_text, text_of_json};
use crate::config::{table_get, ResolvedConfig};
use crate::models::{
    ChatCompletionResponse, CompactRequest, CompactedOutputItem, CompactedResponse,
    CompactionItem, Input,
};
use crate::server::{authorized, chat_url, check_auth, error_json, invalid_request, strings_view, ApiError};
use crate::sse::{trim_range, trimmed};
use crate::text::{contains, contains_str, find, find_str, join, join_strings};
use crate::value::{fields_view, group_json_view, seq_view, Json, JsonV, Number, NumberV};
use vstd::utf8::encode_utf8;

verus! {

broadcast use group_json_view;

pub open spec fn js(s: Seq<char>) -> JsonV {
    JsonV::Str(s)
}

/// A string member, or `default` when it is absent or not a string.
pub open spec fn str_or(v: JsonV, key: Seq<char>, default: Seq<char>) -> Seq<char> {
    match v.get_str(key) {
        Some(s) => s,
        None => default,
    }
}

pub open spec fn item_type(v: JsonV) -> Seq<char> {
    str_or(v, "type"@, Seq::empty())
}

// ─── The input of a compaction ──────────────────────────────────────────

pub open spec fn is_user_message(v: JsonV) -> bool {
    v.get_str("type"@) == Some("message"@) && v.get_str("role"@) == Some("user"@)
}

/// The user messages among the items, in order.
pub open spec fn user_messages(items: Seq<JsonV>) -> Seq<JsonV>
    decreases items.len(),
{
    if items.len() == 0 {
        Seq::empty()
    } else {
        let rest = user_messages(items.drop_last());
        if is_user_message(items.last()) {
            rest.push(items.last())
        } else {
            rest
        }
    }
}

/// The user messages of a compaction request's input array.
pub fn compact_user_messages(input: &Option<Input>) -> (r: Vec<Json>)
    ensures
        seq_view(r@) == match input {
            Some(Input::Array(items)) => user_messages(seq_view(items@)),
            _ => Seq::empty(),
        },
{
    let mut r: Vec<Json> = Vec::new();
    match input {
        Some(Input::Array(items)) => {
            let ghost iv = seq_view(items@);
            let mut i: usize = 0;
            while i < items.len()
                invariant
                    i <= items@.len(),
                    iv == seq_view(items@),
                    seq_view(r@) == user_messages(iv.take(i as int)),
                decreases items.len() - i,
            {
                assert(iv.take(i + 1).drop_last() =~= iv.take(i as int));
                assert(iv.take(i + 1).last() == items@[i as int]@);
                let it = &items[i];
                let is_user = match (it.get_str("type"), it.get_str("role")) {
                    (Some(t), Some(ro)) => str_eq(t, "message") && str_eq(ro, "user"),
                    _ => false,
                };
                if is_user {
                    let ghost before = r@;
                    r.push(copy_json(it));
                    assert(seq_view(r@) =~= seq_view(before).push(it@));
                }
                i = i + 1;
            }
            assert(iv.take(items@.len() as int) =~= iv);
        },
        _ => {
            assert(seq_view(r@) =~= Seq::<JsonV>::empty());
        },
    }
    r
}

/// What a compaction summarizes: the stored history of the previous
/// response when one is named (empty when it is not stored), else the
/// request's input array.
pub fn summarization_history(has_previous_id: bool, stored: Option<Vec<Json>>, input: Option<Input>) -> (r: Vec<Json>)
    ensures
        has_previous_id ==> r@ == match stored {
            Some(h) => h@,
            None => Seq::empty(),
        },
        !has_previous_id ==> r@ == match input {
            Some(Input::Array(items)) => items@,
            _ => Seq::empty(),
        },
{
    if has_previous_id {
        match stored {
            Some(h) => h,
            None => Vec::new(),
        }
    } else {
        match input {
            Some(Input::Array(items)) => items,
            _ => Vec::new(),
        }
    }
}

/// Index of the last compaction item.
pub open spec fn last_compaction(items: Seq<JsonV>) -> Option<int>
    decreases items.len(),
{
    if items.len() == 0 {
        None
    } else if items.last().get_str("type"@) == Some("compaction"@) {
        Some(items.len() - 1)
    } else {
        last_compaction(items.drop_last())
    }
}

/// Where summarizing starts: after the last compaction item.
pub open spec fn compaction_start_of(items: Seq<JsonV>) -> int {
    match last_compaction(items) {
        Some(i) => i + 1,
        None => 0,
    }
}

pub fn compaction_start(history: &Vec<Json>) -> (r: usize)
    ensures
        r as int == compaction_start_of(seq_view(history@)),
        r <= history@.len(),
{
    let ghost hv = seq_view(history@);
    let mut i: usize = history.len();
    assert(hv.take(history@.len() as int) =~= hv);
    while i > 0
        invariant
            i <= history@.len(),
            hv == seq_view(history@),
            last_compaction(hv) == last_compaction(hv.take(i as int)),
        decreases i,
    {
        let ghost t = hv.take(i as int);
        assert(t.drop_last() =~= hv.take(i - 1));
        assert(t.last() == history@[i - 1]@);
        let is_comp = match history[i - 1].get_str("type") {
            Some(t) => str_eq(t, "compaction"),
            None => false,
        };
        if is_comp {
            return i;
        }
        i = i - 1;
    }
    assert(hv.take(0) =~= Seq::<JsonV>::empty());
    0
}

/// The previous summary, read from the compaction item before `start`.
pub open spec fn previous_summary_text(items: Seq<JsonV>, start: int, key: Option<Seq<u8>>) -> Seq<char> {
    if start > 0 && start <= items.len() && items[start - 1].get_str("encrypted_content"@) is Some {
        let text = summary_text(key, items[start - 1].get_str("encrypted_content"@)->0);
        if text.len() > 0 {
            "<previous_summary>\n"@ + text + "\n</previous_summary>\n\n"@
        } else {
            Seq::empty()
        }
    } else {
        Seq::empty()
    }
}

pub fn previous_summary(history: &Vec<Json>, start: usize, compact_key: Option<&[u8; 32]>) -> (r: String)
    ensures
        r@ == previous_summary_text(seq_view(history@), start as int, key_view(compact_key)),
{
    if start == 0 || start > history.len() {
        return String::new();
    }
    assert(seq_view(history@)[start - 1] == history@[start - 1]@);
    match history[start - 1].get_str("encrypted_content") {
        Some(enc) => {
            let e = owned(enc);
            let text = summary_of(compact_key, &e);
            if text.as_str().is_empty() {
                String::new()
            } else {
                let mut r = owned("<previous_summary>\n");
                r.append(text.as_str());
                r.append("\n</previous_summary>\n\n");
                r
            }
        },
        None => String::new(),
    }
}

// ─── The conversation as text ───────────────────────────────────────────

/// Function calls waiting for their output: by call id, the name and the
/// arguments. A call id occurs once; a repeated call replaces the earlier.
pub open spec fn pend_find(p: Seq<(Seq<char>, Seq<char>, Seq<char>)>, id: Seq<char>) -> Option<int>
    decreases p.len(),
{
    if p.len() == 0 {
        None
    } else if p.last().0 == id {
        match pend_find(p.drop_last(), id) {
            Some(i) => Some(i),
            None => Some(p.len() - 1),
        }
    } else {
        pend_find(p.drop_last(), id)
    }
}

pub open spec fn pend_insert(p: Seq<(Seq<char>, Seq<char>, Seq<char>)>, id: Seq<char>, name: Seq<char>, args: Seq<char>) -> Seq<(Seq<char>, Seq<char>, Seq<char>)> {
    match pend_find(p, id) {
        Some(i) => p.update(i, (id, name, args)),
        None => p.push((id, name, args)),
    }
}

/// The text of a message's content blocks that carry text, one per line.
pub open spec fn block_texts(a: Seq<JsonV>) -> Seq<Seq<char>>
    decreases a.len(),
{
    if a.len() == 0 {
        Seq::empty()
    } else {
        let rest = block_texts(a.drop_last());
        match a.last().get_str("text"@) {
            Some(t) => rest.push(t),
            None => rest,
        }
    }
}

pub open spec fn message_content(item: JsonV) -> Seq<char> {
    match item.get("content"@) {
        Some(JsonV::Array(a)) => join(block_texts(a), "\n"@),
        _ => Seq::empty(),
    }
}

/// A user message that carries the client's environment context.
pub open spec fn has_environment_context(item: JsonV) -> bool {
    match item.get("content"@) {
        Some(JsonV::Array(a)) => exists|k: int|
            0 <= k < a.len() && #[trigger] a[k].get_str("text"@) is Some && contains(
                a[k].get_str("text"@)->0,
                "<environment_context>"@,
            ),
        _ => false,
    }
}

/// The output of a function call: a string as it stands, anything else as JSON.
pub open spec fn raw_output(item: JsonV) -> Seq<char> {
    match item.get("output"@) {
        Some(JsonV::Str(s)) => s,
        Some(v) => text_of_json(v),
        None => Seq::empty(),
    }
}

pub open spec fn output_marker() -> Seq<char> {
    "\nOutput:\n"@
}

/// A command output wrapped in metadata keeps what follows the `Output:` line.
pub open spec fn stripped_output(raw: Seq<char>) -> Seq<char> {
    match find(raw, output_marker()) {
        Some(p) => trimmed(raw.skip(p + 10)),
        None => raw,
    }
}

/// The output can be cut after its `Output:` line: a character follows the
/// line, and it takes one byte.
pub open spec fn output_cuttable(raw: Seq<char>) -> bool {
    match find(raw, output_marker()) {
        Some(p) => p + 9 < raw.len() && (raw[p + 9] as u32) < 0x80,
        None => true,
    }
}

pub ghost struct ConvText {
    pub text: Seq<char>,
    pub pending: Seq<(Seq<char>, Seq<char>, Seq<char>)>,
}

pub open spec fn call_block(name: Seq<char>, args: Seq<char>) -> Seq<char> {
    "<tool_call>\n"@ + name + "("@ + args + ")\n</tool_call>\n"@
}

pub open spec fn output_block(out: Seq<char>) -> Seq<char> {
    "<tool_output>\n"@ + out + "\n</tool_output>\n"@
}

pub open spec fn conv_step(s: ConvText, item: JsonV) -> ConvText {
    let typ = item_type(item);
    if typ == "message"@ {
        let role = str_or(item, "role"@, Seq::empty());
        if role == "developer"@ || (role == "user"@ && has_environment_context(item)) {
            s
        } else {
            let content = message_content(item);
            if content.len() > 0 {
                ConvText {
                    text: s.text + "<"@ + role + ">\n"@ + content + "\n</"@ + role + ">\n"@,
                    ..s
                }
            } else {
                s
            }
        }
    } else if typ == "function_call"@ {
        ConvText {
            pending: pend_insert(
                s.pending,
                str_or(item, "call_id"@, "?"@),
                str_or(item, "name"@, "?"@),
                str_or(item, "arguments"@, "{}"@),
            ),
            ..s
        }
    } else if typ == "function_call_output"@ {
        let id = str_or(item, "call_id"@, "?"@);
        let out = stripped_output(raw_output(item));
        match pend_find(s.pending, id) {
            Some(i) => ConvText {
                text: s.text + call_block(s.pending[i].1, s.pending[i].2) + output_block(out),
                pending: s.pending.remove(i),
            },
            None => ConvText { text: s.text + output_block(out), ..s },
        }
    } else {
        s
    }
}

pub open spec fn conv_run(items: Seq<JsonV>, n: int) -> ConvText
    decreases n,
{
    if n <= 0 {
        ConvText { text: Seq::empty(), pending: Seq::empty() }
    } else {
        conv_step(conv_run(items, n - 1), items[n - 1])
    }
}

/// A message as the summarizer reads it: its text between tags that name
/// its role.
pub open spec fn tagged_message(item: JsonV) -> Seq<char> {
    let role = item.get_str("role"@)->0;
    "<"@ + role + ">\n"@ + message_content(item) + "\n</"@ + role + ">\n"@
}

/// Whether the summarizer reads a message: every message with text is read
/// but a developer's, and a user's that carries the client's environment
/// context.
pub open spec fn read_by_summarizer(item: JsonV) -> bool {
    let role = item.get_str("role"@)->0;
    &&& role != "developer"@
    &&& !(role == "user"@ && has_environment_context(item))
    &&& message_content(item).len() > 0
}

/// What a message adds to the conversation text.
pub open spec fn message_part(item: JsonV) -> Seq<char> {
    if read_by_summarizer(item) {
        tagged_message(item)
    } else {
        Seq::empty()
    }
}

/// A message with a role.
pub open spec fn has_role(item: JsonV) -> bool {
    item.get_str("type"@) == Some("message"@) && item.get_str("role"@) is Some
}

proof fn lemma_messages_run(items: Seq<JsonV>, n: int)
    requires
        0 <= n <= items.len(),
        forall|i: int| 0 <= i < items.len() ==> has_role(#[trigger] items[i]),
    ensures
        conv_run(items, n) == (ConvText {
            text: Seq::new(n as nat, |i: int| message_part(items[i])).flatten(),
            pending: Seq::empty(),
        }),
    decreases n,
{
    let f = |i: int| message_part(items[i]);
    if n == 0 {
        assert(Seq::new(0, f) =~= Seq::<Seq<char>>::empty());
    } else {
        lemma_messages_run(items, n - 1);
        let item = items[n - 1];
        assert(has_role(item));
        let prev = Seq::new((n - 1) as nat, f);
        assert(Seq::new(n as nat, f) =~= prev.push(message_part(item)));
        prev.lemma_flatten_push(message_part(item));
        let role = item.get_str("role"@)->0;
        assert(item_type(item) == "message"@);
        assert(str_or(item, "role"@, Seq::empty()) == role);
        let t0 = prev.flatten();
        if read_by_summarizer(item) {
            assert(t0 + "<"@ + role + ">\n"@ + message_content(item) + "\n</"@ + role + ">\n"@ =~= t0
                + tagged_message(item));
        } else {
            assert(t0 + message_part(item) =~= t0);
        }
    }
}

/// The conversation the summarizer reads holds, in order, every message it
/// reads, each as its text between tags naming its role (the user's, the
/// assistant's and the system's alike), and nothing of the messages it
/// passes over: a developer's, a user's environment context, and messages
/// without text.
pub proof fn law_messages_in_order(items: Seq<JsonV>)
    requires
        forall|i: int| 0 <= i < items.len() ==> has_role(#[trigger] items[i]),
    ensures
        conversation_of(items) == Seq::new(items.len(), |i: int| message_part(items[i])).flatten(),
{
    lemma_messages_run(items, items.len() as int);
    let s = conv_run(items, items.len() as int);
    assert(unanswered(s.pending) =~= Seq::<char>::empty());
    assert(s.text + unanswered(s.pending) =~= s.text);
}

/// The calls that never got an output.
pub open spec fn unanswered(p: Seq<(Seq<char>, Seq<char>, Seq<char>)>) -> Seq<char>
    decreases p.len(),
{
    if p.len() == 0 {
        Seq::empty()
    } else {
        unanswered(p.drop_last()) + call_block(p.last().1, p.last().2) + output_block(
            "(no output)"@,
        )
    }
}

/// The conversation as tagged text; calls without an output come last.
pub open spec fn conversation_of(items: Seq<JsonV>) -> Seq<char> {
    let s = conv_run(items, items.len() as int);
    s.text + unanswered(s.pending)
}

/// Every function call output of the items can be cut after its `Output:` line.
pub open spec fn outputs_cuttable(items: Seq<JsonV>) -> bool {
    forall|k: int|
        0 <= k < items.len() && item_type(#[trigger] items[k]) == "function_call_output"@
            ==> output_cuttable(raw_output(items[k]))
}

fn str_member_or(v: &Json, key: &str, default: &str) -> (r: String)
    ensures
        r@ == str_or(v@, key@, default@),
{
    match v.get_str(key) {
        Some(s) => owned(s),
        None => owned(default),
    }
}

fn raw_output_of(item: &Json) -> (r: String)
    ensures
        r@ == raw_output(item@),
{
    match item.get("output") {
        Some(Json::String(s)) => s.clone(),
        Some(v) => json_text(v),
        None => String::new(),
    }
}

/// Whether a function call output can be cut after its `Output:` line.
#[verifier::rlimit(40)]
pub fn output_can_be_cut(raw: &str) -> (r: bool)
    ensures
        r == output_cuttable(raw@),
{
    match find_str(raw, "\nOutput:\n") {
        Some(p) => {
            let x = crate::json::chars_of(raw);
            if p < x.len() && x.len() - p > 9 {
                (x[p + 9] as u32) < 0x80
            } else {
                false
            }
        },
        None => true,
    }
}

/// Whether every function call output of the history, from `start`, can
/// be cut after its `Output:` line.
pub fn history_outputs_cuttable(history: &Vec<Json>, start: usize) -> (r: bool)
    requires
        start <= history@.len(),
    ensures
        r == outputs_cuttable(seq_view(history@).skip(start as int)),
{
    let ghost hv = seq_view(history@).skip(start as int);
    let mut i: usize = start;
    while i < history.len()
        invariant
            start <= i <= history@.len(),
            hv == seq_view(history@).skip(start as int),
            forall|k: int|
                0 <= k < i - start && item_type(#[trigger] hv[k]) == "function_call_output"@
                    ==> output_cuttable(raw_output(hv[k])),
        decreases history.len() - i,
    {
        proof {
            reveal_strlit("");
            assert(""@ =~= Seq::<char>::empty());
        }
        assert(hv[i - start] == history@[i as int]@);
        let t = str_member_or(&history[i], "type", "");
        if str_eq(t.as_str(), "function_call_output") {
            let raw = raw_output_of(&history[i]);
            if !output_can_be_cut(raw.as_str()) {
                assert(item_type(hv[i - start]) == "function_call_output"@);
                assert(!output_cuttable(raw_output(hv[i - start])));
                return false;
            }
        }
        i = i + 1;
    }
    true
}

#[verifier::rlimit(80)]
fn stripped_output_of(raw: String) -> (r: String)
    requires
        output_cuttable(raw@),
    ensures
        r@ == stripped_output(raw@),
{
    let found = find_str(raw.as_str(), "\nOutput:\n");
    match found {
        Some(p) => {
            let x = crate::json::chars_of(raw.as_str());
            let ghost rv = raw@;
            assert(p + 9 < rv.len());
            assert(x@.len() == rv.len());
            assert(p + 10 <= x.len());
            assert(x@.subrange(p + 10, x@.len() as int) =~= rv.skip(p + 10));
            let r = trim_range(x.as_slice(), p + 10, x.len());
            r
        },
        None => raw,
    }
}

fn message_content_of(item: &Json) -> (r: String)
    ensures
        r@ == message_content(item@),
{
    match item.get("content") {
        Some(Json::Array(a)) => {
            let ghost av = seq_view(a@);
            let mut parts: Vec<String> = Vec::new();
            let mut i: usize = 0;
            while i < a.len()
                invariant
                    i <= a@.len(),
                    av == seq_view(a@),
                    parts@.map_values(|p: String| p@) == block_texts(av.take(i as int)),
                decreases a.len() - i,
            {
                assert(av.take(i + 1).drop_last() =~= av.take(i as int));
                assert(av.take(i + 1).last() == a@[i as int]@);
                match a[i].get_str("text") {
                    Some(t) => {
                        let ghost before = parts@;
                        parts.push(owned(t));
                        assert(parts@.map_values(|p: String| p@) =~= before.map_values(|p: String| p@).push(t@));
                    },
                    None => {},
                }
                i = i + 1;
            }
            assert(av.take(a@.len() as int) =~= av);
            join_strings(&parts, "\n")
        },
        _ => String::new(),
    }
}

fn has_environment_context_of(item: &Json) -> (r: bool)
    ensures
        r == has_environment_context(item@),
{
    match item.get("content") {
        Some(Json::Array(a)) => {
            let ghost av = seq_view(a@);
            let mut i: usize = 0;
            while i < a.len()
                invariant
                    i <= a@.len(),
                    av == seq_view(a@),
                    item@.get("content"@) == Some(JsonV::Array(av)),
                    forall|k: int|
                        0 <= k < i ==> !(#[trigger] av[k].get_str("text"@) is Some && contains(
                            av[k].get_str("text"@)->0,
                            "<environment_context>"@,
                        )),
                decreases a.len() - i,
            {
                assert(av[i as int] == a@[i as int]@);
                match a[i].get_str("text") {
                    Some(t) => {
                        if contains_str(t, "<environment_context>") {
                            assert(av[i as int].get_str("text"@) == Some(t@));
                            return true;
                        }
                    },
                    None => {},
                }
                i = i + 1;
            }
            false
        },
        _ => false,
    }
}

struct Pending {
    calls: Vec<(String, String, String)>,
}

pub open spec fn pend_view(p: Seq<(String, String, String)>) -> Seq<(Seq<char>, Seq<char>, Seq<char>)> {
    p.map_values(|c: (String, String, String)| (c.0@, c.1@, c.2@))
}

proof fn lemma_pend_find(p: Seq<(Seq<char>, Seq<char>, Seq<char>)>, id: Seq<char>)
    ensures
        match pend_find(p, id) {
            Some(i) => 0 <= i < p.len() && p[i].0 == id && forall|j: int| 0 <= j < i ==> p[j].0 != id,
            None => forall|j: int| 0 <= j < p.len() ==> p[j].0 != id,
        },
    decreases p.len(),
{
    if p.len() > 0 {
        let q = p.drop_last();
        lemma_pend_find(q, id);
        assert(forall|j: int| 0 <= j < q.len() ==> q[j] == p[j]);
    }
}

proof fn lemma_pend_find_first(p: Seq<(Seq<char>, Seq<char>, Seq<char>)>, id: Seq<char>, i: int)
    requires
        0 <= i < p.len(),
        p[i].0 == id,
        forall|j: int| 0 <= j < i ==> p[j].0 != id,
    ensures
        pend_find(p, id) == Some(i),
    decreases p.len(),
{
    lemma_pend_find(p, id);
    if i < p.len() - 1 {
        lemma_pend_find_first(p.drop_last(), id, i);
    } else {
        lemma_pend_find(p.drop_last(), id);
        match pend_find(p.drop_last(), id) {
            Some(k) => {
                assert(p[k].0 == id);
            },
            None => {},
        }
    }
}

fn find_pending(p: &Vec<(String, String, String)>, id: &str) -> (r: Option<usize>)
    ensures
        match r {
            Some(i) => pend_find(pend_view(p@), id@) == Some(i as int) && i < p@.len(),
            None => pend_find(pend_view(p@), id@).is_none(),
        },
{
    let ghost pv = pend_view(p@);
    let mut i: usize = 0;
    while i < p.len()
        invariant
            i <= p@.len(),
            pv == pend_view(p@),
            forall|j: int| 0 <= j < i ==> pv[j].0 != id@,
        decreases p.len() - i,
    {
        assert(pv[i as int] == (p@[i as int].0@, p@[i as int].1@, p@[i as int].2@));
        if str_eq(p[i].0.as_str(), id) {
            proof {
                lemma_pend_find_first(pv, id@, i as int);
            }
            return Some(i);
        }
        i = i + 1;
    }
    proof {
        lemma_pend_find(pv, id@);
        match pend_find(pv, id@) {
            Some(k) => {
                assert(pv[k].0 == id@);
            },
            None => {},
        }
    }
    None
}

fn append_call_block(text: &mut String, name: &str, args: &str)
    ensures
        final(text)@ == old(text)@ + call_block(name@, args@),
{
    let ghost t0 = text@;
    text.append("<tool_call>\n");
    text.append(name);
    text.append("(");
    text.append(args);
    text.append(")\n</tool_call>\n");
    assert(text@ =~= t0 + call_block(name@, args@));
}

fn append_output_block(text: &mut String, out: &str)
    ensures
        final(text)@ == old(text)@ + output_block(out@),
{
    let ghost t0 = text@;
    text.append("<tool_output>\n");
    text.append(out);
    text.append("\n</tool_output>\n");
    assert(text@ =~= t0 + output_block(out@));
}

/// The conversation from `start` as tagged text for the summarizer.
pub fn conversation_text(history: &Vec<Json>, start: usize) -> (r: String)
    requires
        start <= history@.len(),
        outputs_cuttable(seq_view(history@).skip(start as int)),
    ensures
        r@ == conversation_of(seq_view(history@).skip(start as int)),
{
    let ghost hv = seq_view(history@).skip(start as int);
    let mut text = String::new();
    let mut pending: Vec<(String, String, String)> = Vec::new();
    let mut i: usize = start;
    assert(pend_view(pending@) =~= Seq::<(Seq<char>, Seq<char>, Seq<char>)>::empty());
    while i < history.len()
        invariant
            start <= i <= history@.len(),
            hv == seq_view(history@).skip(start as int),
            outputs_cuttable(hv),
            (ConvText { text: text@, pending: pend_view(pending@) }) == conv_run(hv, i - start),
        decreases history.len() - i,
    {
        proof {
            reveal_strlit("");
            assert(""@ =~= Seq::<char>::empty());
        }
        let item = &history[i];
        assert(hv[i - start] == item@);
        let ghost s0 = ConvText { text: text@, pending: pend_view(pending@) };
        let typ = str_member_or(item, "type", "");
        if str_eq(typ.as_str(), "message") {
            let role = str_member_or(item, "role", "");
            let skip = str_eq(role.as_str(), "developer") || (str_eq(role.as_str(), "user")
                && has_environment_context_of(item));
            if !skip {
                let content = message_content_of(item);
                if !content.as_str().is_empty() {
                    text.append("<");
                    text.append(role.as_str());
                    text.append(">\n");
                    text.append(content.as_str());
                    text.append("\n</");
                    text.append(role.as_str());
                    text.append(">\n");
                    assert(text@ =~= s0.text + "<"@ + role@ + ">\n"@ + content@ + "\n</"@ + role@ + ">\n"@);
                }
            }
        } else if str_eq(typ.as_str(), "function_call") {
            let call_id = str_member_or(item, "call_id", "?");
            let name = str_member_or(item, "name", "?");
            let args = str_member_or(item, "arguments", "{}");
            let ghost cv = (call_id@, name@, args@);
            match find_pending(&pending, call_id.as_str()) {
                Some(k) => {
                    pending.set(k, (call_id, name, args));
                    assert(pend_view(pending@) =~= s0.pending.update(k as int, cv));
                },
                None => {
                    pending.push((call_id, name, args));
                    assert(pend_view(pending@) =~= s0.pending.push(cv));
                },
            }
        } else if str_eq(typ.as_str(), "function_call_output") {
            let call_id = str_member_or(item, "call_id", "?");
            let raw = raw_output_of(item);
            assert(output_cuttable(raw_output(hv[i - start])));
            let out = stripped_output_of(raw);
            match find_pending(&pending, call_id.as_str()) {
                Some(k) => {
                    append_call_block(&mut text, pending[k].1.as_str(), pending[k].2.as_str());
                    append_output_block(&mut text, out.as_str());
                    let ghost pv = pend_view(pending@);
                    assert(pv[k as int] == (pending@[k as int].0@, pending@[k as int].1@, pending@[k as int].2@));
                    let _ = pending.remove(k);
                    assert(pend_view(pending@) =~= pv.remove(k as int));
                },
                None => {
                    append_output_block(&mut text, out.as_str());
                },
            }
        }
        i = i + 1;
    }
    assert(hv.len() == history@.len() - start);
    let ghost final_pending = pend_view(pending@);
    let mut k: usize = 0;
    let ghost t1 = text@;
    while k < pending.len()
        invariant
            k <= pending@.len(),
            final_pending == pend_view(pending@),
            text@ == t1 + unanswered(final_pending.take(k as int)),
        decreases pending.len() - k,
    {
        assert(final_pending.take(k + 1).drop_last() =~= final_pending.take(k as int));
        assert(final_pending[k as int] == (pending@[k as int].0@, pending@[k as int].1@, pending@[k as int].2@));
        append_call_block(&mut text, pending[k].1.as_str(), pending[k].2.as_str());
        append_output_block(&mut text, "(no output)");
        k = k + 1;
    }
    assert(final_pending.take(pending@.len() as int) =~= final_pending);
    text
}

/// The summarizer's instructions.
pub open spec fn compact_prompt_text(previous: Seq<char>, conversation: Seq<char>) -> Seq<char> {
    "Summarize the conversation below, including all key decisions, code changes, file edits, user requests, and their outcomes. Be detailed and specific \u{2014} this summary will replace the full conversation history for future context.\n\n"@
        + previous + "<conversation>\n"@ + conversation + "</conversation>"@
}

pub fn compact_prompt(previous: &str, conversation: &str) -> (r: String)
    ensures
        r@ == compact_prompt_text(previous@, conversation@),
{
    let mut p = owned(
        "Summarize the conversation below, including all key decisions, code changes, file edits, user requests, and their outcomes. Be detailed and specific \u{2014} this summary will replace the full conversation history for future context.\n\n",
    );
    p.append(previous);
    p.append("<conversation>\n");
    p.append(conversation);
    p.append("</conversation>");
    p
}

pub open spec fn role_message(role: Seq<char>, content: Seq<char>) -> JsonV {
    object_of(seq![("role"@, js(role)), ("content"@, js(content))])
}

/// The request that asks the provider for the summary.
pub open spec fn compact_request_json(model: Seq<char>, prompt: Seq<char>) -> JsonV {
    object_of(
        seq![
            ("model"@, js(model)),
            ("messages"@, JsonV::Array(
                seq![
                    role_message("system"@, prompt),
                    role_message("user"@, "Please summarize the conversation above."@),
                ],
            )),
            ("max_tokens"@, JsonV::Number(NumberV::PosInt(33000))),
            ("thinking"@, object_of(seq![("type"@, js("disabled"@))])),
        ],
    )
}

fn role_message_json(role: &str, content: &str) -> (r: Json)
    ensures
        r@ == role_message(role@, content@),
{
    let f = vec![(owned("role"), Json::String(owned(role))), (owned("content"), Json::String(owned(content)))];
    assert(fields_view(f@) =~= seq![("role"@, js(role@)), ("content"@, js(content@))]);
    object(f)
}

pub fn compact_request_body(model: &str, prompt: &str) -> (r: Json)
    ensures
        r@ == compact_request_json(model@, prompt@),
{
    let msgs = vec![
        role_message_json("system", prompt),
        role_message_json("user", "Please summarize the conversation above."),
    ];
    assert(seq_view(msgs@) =~= seq![
        role_message("system"@, prompt@),
        role_message("user"@, "Please summarize the conversation above."@),
    ]);
    let ghost mv = seq_view(msgs@);
    let thinking = vec![(owned("type"), Json::String(owned("disabled")))];
    assert(fields_view(thinking@) =~= seq![("type"@, js("disabled"@))]);
    let f = vec![
        (owned("model"), Json::String(owned(model))),
        (owned("messages"), Json::Array(msgs)),
        (owned("max_tokens"), Json::Number(Number::PosInt(33000))),
        (owned("thinking"), object(thinking)),
    ];
    assert(fields_view(f@) =~= seq![
        ("model"@, js(model@)),
        ("messages"@, JsonV::Array(mv)),
        ("max_tokens"@, JsonV::Number(NumberV::PosInt(33000))),
        ("thinking"@, object_of(seq![("type"@, js("disabled"@))])),
    ]);
    object(f)
}

// ─── The compacted response ─────────────────────────────────────────────

/// The summary the provider answered: the first choice's content, else empty.
pub open spec fn summary_of_response(c: ChatCompletionResponse) -> Seq<char> {
    if c.choices@.len() > 0 && c.choices@[0].message.content is Some {
        c.choices@[0].message.content->0@
    } else {
        Seq::empty()
    }
}

/// How a summary is kept in a compaction item: encrypted under the key
/// when there is one and the summary is not too long to encrypt, else as it
/// is. Encrypted, it is the lowercase hex of a 12-byte nonce followed by the
/// sealed UTF-8 of the summary, and it decrypts to the summary.
pub open spec fn sealed_summary(key: Option<Seq<u8>>, summary: Seq<char>, content: Seq<char>) -> bool {
    match key {
        None => content == summary,
        Some(k) => if encode_utf8(summary).len() <= P_MAX {
            &&& exists|n: Seq<u8>|
                n.len() == 12 && content == hex_text(
                    n + #[trigger] aes_gcm_sealed(k, n, encode_utf8(summary)),
                )
            &&& decrypted(k, content) == Some(summary)
        } else {
            content == summary
        },
    }
}

/// A summary kept in a compaction item reads back, on the next compaction
/// under the same key, as that summary; unless it was too long to
/// encrypt and, kept as it was, happens to decrypt.
pub proof fn law_summary_reads_back(key: Option<Seq<u8>>, summary: Seq<char>, content: Seq<char>)
    requires
        sealed_summary(key, summary, content),
        key is None || encode_utf8(summary).len() <= P_MAX || decrypted(key->0, summary) is None,
    ensures
        summary_text(key, content) == summary,
{
}

/// Builds the compaction answer: the user messages, each without its
/// `type`, then the compaction item holding the summary, encrypted under
/// the key when there is one and encryption works.
pub fn compacted_response(chat_resp: &ChatCompletionResponse, user_msgs: Vec<Json>, compact_key: Option<&[u8; 32]>) -> (r: CompactedResponse)
    ensures
        is_id(r.id@, "resp_"@),
        r.object@ == "response.compaction"@,
        r.created_at == chat_resp.created,
        r.usage == match chat_resp.usage {
            Some(u) => Some(usage_of(u)),
            None => None,
        },
        r.output@.len() == user_msgs@.len() + 1,
        forall|i: int|
            0 <= i < user_msgs@.len() ==> match #[trigger] r.output@[i] {
                CompactedOutputItem::Message(m) => m@ == without_type(user_msgs@[i]@),
                _ => false,
            },
        match r.output@[user_msgs@.len() as int] {
            CompactedOutputItem::Compaction(c) => {
                &&& is_id(c.id@, "comp_"@)
                &&& sealed_summary(key_view(compact_key), summary_of_response(*chat_resp), c.encrypted_content@)
            },
            _ => false,
        },
{
    let summary: String = if chat_resp.choices.len() > 0 {
        match &chat_resp.choices[0].message.content {
            Some(c) => c.clone(),
            None => String::new(),
        }
    } else {
        String::new()
    };
    let usage = match &chat_resp.usage {
        Some(u) => Some(response_usage(u)),
        None => None,
    };
    let encrypted_content = match compact_key {
        Some(k) => match encrypt(k, summary.as_str()) {
            Some(e) => e,
            None => summary.clone(),
        },
        None => summary.clone(),
    };
    let compaction = CompactionItem { id: new_id("comp_"), encrypted_content };
    let response_id = new_id("resp_");
    let mut output: Vec<CompactedOutputItem> = Vec::new();
    let ghost us = user_msgs@;
    let n = user_msgs.len();
    for m in it: user_msgs
        invariant
            it.seq() == us,
            output@.len() == it.index(),
            forall|i: int|
                0 <= i < it.index() ==> match #[trigger] output@[i] {
                    CompactedOutputItem::Message(x) => x@ == without_type(us[i]@),
                    _ => false,
                },
    {
        let ghost k = it.index() as int;
        let ghost mv = m@;
        let item = match m {
            Json::Object(mut f) => {
                let _ = remove_field(&mut f, "type");
                Json::Object(f)
            },
            other => other,
        };
        assert(item@ == without_type(mv));
        output.push(CompactedOutputItem::Message(item));
    }
    output.push(CompactedOutputItem::Compaction(compaction));
    CompactedResponse {
        id: response_id,
        object: owned("response.compaction"),
        created_at: chat_resp.created,
        output,
        usage,
    }
}

// ─── The whole compaction request ───────────────────────────────────────

/// The history a compaction request summarizes (see `summarization_history`).
pub open spec fn compact_history(req: CompactRequest, stored: Option<Vec<Json>>) -> Seq<JsonV> {
    if req.previous_response_id is Some {
        match stored {
            Some(h) => seq_view(h@),
            None => Seq::empty(),
        }
    } else {
        match req.input {
            Some(Input::Array(items)) => seq_view(items@),
            _ => Seq::empty(),
        }
    }
}

/// The user messages a compaction request answers with.
pub open spec fn request_user_messages(req: CompactRequest) -> Seq<JsonV> {
    match req.input {
        Some(Input::Array(items)) => user_messages(seq_view(items@)),
        _ => Seq::empty(),
    }
}

/// The prompt that summarizes a history.
pub open spec fn summary_prompt_of(h: Seq<JsonV>, key: Option<Seq<u8>>) -> Seq<char> {
    let start = compaction_start_of(h);
    compact_prompt_text(previous_summary_text(h, start, key), conversation_of(h.skip(start)))
}

/// What is sent to the provider for a compaction, and what is kept for the answer.
#[derive(Debug)]
pub struct CompactPlan {
    pub url: String,
    pub api_key: String,
    pub body: Json,
    pub user_messages: Vec<Json>,
}

/// What preparing a compaction gives: the history after its last
/// compaction item as a prompt, addressed to the provider of the requested
/// model; `None` when a function call output of that history cannot be cut
/// after its `Output:` line (a slice there would not fall on a character).
pub open spec fn prepared(
    r: Option<Result<CompactPlan, ApiError>>,
    req: CompactRequest,
    stored: Option<Vec<Json>>,
    config: ResolvedConfig,
    key: Option<Seq<u8>>,
) -> bool {
    let h = compact_history(req, stored);
    let start = compaction_start_of(h);
    match r {
        None => !outputs_cuttable(h.skip(start)),
        Some(res) => outputs_cuttable(h.skip(start)) && match table_get(config.models@, req.model@) {
            None => res is Err && res->Err_0.status == 400 && res->Err_0.body@ == error_json(
                "invalid_request_error"@,
                "Unknown model: "@ + req.model@,
            ),
            Some(p) => res is Ok && {
                let plan = res->Ok_0;
                &&& plan.url@ == p.base_url + "/chat/completions"@
                &&& plan.api_key@ == p.api_key
                &&& plan.body@ == compact_request_json(p.downstream_model, summary_prompt_of(h, key))
                &&& seq_view(plan.user_messages@) == request_user_messages(req)
            },
        },
    }
}

/// Prepares a compaction (see [`prepared`]).
pub fn prepare_compact(req: CompactRequest, stored: Option<Vec<Json>>, config: &ResolvedConfig, compact_key: Option<&[u8; 32]>) -> (r: Option<Result<CompactPlan, ApiError>>)
    ensures
        prepared(r, req, stored, *config, key_view(compact_key)),
{
    let ghost h = compact_history(req, stored);
    let user_msgs = compact_user_messages(&req.input);
    let has_previous = req.previous_response_id.is_some();
    let history = summarization_history(has_previous, stored, req.input);
    assert(seq_view(history@) == h);
    let start = compaction_start(&history);
    if !history_outputs_cuttable(&history, start) {
        return None;
    }
    let previous = previous_summary(&history, start, compact_key);
    let conversation = conversation_text(&history, start);
    let prompt = compact_prompt(previous.as_str(), conversation.as_str());
    match config.models.get(req.model.as_str()) {
        Some(p) => {
            let body = compact_request_body(p.downstream_model.as_str(), prompt.as_str());
            Some(Ok(CompactPlan {
                url: chat_url(p.base_url.as_str()),
                api_key: p.api_key.clone(),
                body,
                user_messages: user_msgs,
            }))
        },
        None => {
            let mut m = owned("Unknown model: ");
            m.append(req.model.as_str());
            Some(Err(invalid_request(m.as_str())))
        },
    }
}

/// Admits a compaction request, in the order the endpoint checks it: the
/// `Authorization` header first (401), then the body, which `parsed` holds
/// as read or as the reader's account of why it does not read (400), then
/// the compaction itself (see [`prepared`]). `stored` is the history kept
/// under the request's previous response, when it names one.
pub fn admit_compact(
    config: &ResolvedConfig,
    authorization: Option<&str>,
    parsed: Result<CompactRequest, String>,
    stored: Option<Vec<Json>>,
    compact_key: Option<&[u8; 32]>,
) -> (r: Option<Result<CompactPlan, ApiError>>)
    ensures
        !authorized(
            config.auth_enabled,
            strings_view(config.auth_keys@),
            match authorization {
                Some(h) => Some(h@),
                None => None,
            },
        ) ==> (r matches Some(Err(e)) && e.status == 401 && e.body@ == error_json(
            "authentication_error"@,
            "Invalid or missing API key"@,
        )),
        authorized(
            config.auth_enabled,
            strings_view(config.auth_keys@),
            match authorization {
                Some(h) => Some(h@),
                None => None,
            },
        ) ==> match parsed {
            Err(d) => (r matches Some(Err(e)) && e.status == 400 && e.body@ == error_json(
                "invalid_request_error"@,
                d@,
            )),
            Ok(req) => prepared(r, req, stored, *config, key_view(compact_key)),
        },
{
    match check_auth(config, authorization) {
        Err(e) => Some(Err(e)),
        Ok(()) => match parsed {
            Err(d) => Some(Err(invalid_request(d.as_str()))),
            Ok(req) => prepare_compact(req, stored, config, compact_key),
        },
    }
}

} // verus!
