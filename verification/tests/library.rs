#![allow(dead_code)]
use responses_proxy::compact::{
    admit_compact,
    compacted_response, conversation_text, output_can_be_cut, prepare_compact, previous_summary,
};
use responses_proxy::config::{ModelMap, ResolvedConfig, ResolvedProvider};
use responses_proxy::crypto::{compact_key_from_hex, decrypt, encrypt};
use responses_proxy::ids::new_id;
use responses_proxy::items::parse_input_item;
use responses_proxy::models::{
    ChatChoice, ChatCompletionResponse, ChatResponseMessage, ChatUsage, CompactRequest,
    CompactedOutputItem, FunctionCallItem, Input, InputContentBlock, InputItem, InputMessage,
    MessageRole, ResponsesRequest,
};
use responses_proxy::rewrite::{get_path, normalize_path, pointer_tokens, remove_path, set_path};
use responses_proxy::server::{
    admit_request, cancel_body, check_auth, downstream_error, failed_event, list_models_body, request_parse_error,
    route_request, session_is_stale,
};
use responses_proxy::sse::next_sse_event;
use responses_proxy::text::replace_str;
use responses_proxy::value::{Json, Number};

fn from_serde(v: &serde_json::Value) -> Json {
    match v {
        serde_json::Value::Null => Json::Null,
        serde_json::Value::Bool(b) => Json::Bool(*b),
        serde_json::Value::Number(n) => Json::Number(match (n.as_u64(), n.as_i64()) {
            (Some(u), _) => Number::PosInt(u),
            (None, Some(i)) => Number::NegInt(i),
            (None, None) => Number::Float(n.to_string()),
        }),
        serde_json::Value::String(s) => Json::String(s.clone()),
        serde_json::Value::Array(a) => Json::Array(a.iter().map(from_serde).collect()),
        serde_json::Value::Object(o) => {
            Json::Object(o.iter().map(|(k, x)| (k.clone(), from_serde(x))).collect())
        }
    }
}

fn to_serde(v: &Json) -> serde_json::Value {
    match v {
        Json::Null => serde_json::Value::Null,
        Json::Bool(b) => serde_json::Value::Bool(*b),
        Json::Number(Number::PosInt(u)) => serde_json::Value::from(*u),
        Json::Number(Number::NegInt(i)) => serde_json::Value::from(*i),
        Json::Number(Number::Float(t)) => serde_json::Value::Number(t.parse().unwrap()),
        Json::String(s) => serde_json::Value::String(s.clone()),
        Json::Array(a) => serde_json::Value::Array(a.iter().map(to_serde).collect()),
        Json::Object(f) => serde_json::Value::Object(
            f.iter().map(|(k, x)| (k.clone(), to_serde(x))).collect(),
        ),
    }
}

fn j(text: &str) -> Json {
    from_serde(&serde_json::from_str::<serde_json::Value>(text).unwrap())
}

fn sv(text: &str) -> serde_json::Value {
    serde_json::from_str(text).unwrap()
}

fn provider(url: &str, key: &str, model: &str) -> ResolvedProvider {
    ResolvedProvider { base_url: url.into(), api_key: key.into(), downstream_model: model.into() }
}

fn config(auth: bool) -> ResolvedConfig {
    let mut models = ModelMap::new();
    models.insert("m1".into(), provider("https://one.example", "k1", "down-1"));
    models.insert("m2".into(), provider("https://two.example", "k2", "down-2"));
    ResolvedConfig {
        listen_addr: "0.0.0.0:3000".into(),
        request_timeout_secs: 120,
        auth_enabled: auth,
        auth_keys: vec!["sk-good".into()],
        tool_type_allowlist: vec!["function".into()],
        models,
        model_names: vec!["m1".into(), "m2".into()],
    }
}

fn request(model: &str, input: Input) -> ResponsesRequest {
    ResponsesRequest {
        model: model.into(),
        input,
        instructions: None,
        temperature: None,
        top_p: None,
        max_output_tokens: None,
        tools: None,
        tool_choice: None,
        stream: Some(true),
        stop: None,
        top_logprobs: None,
        previous_response_id: None,
        store: None,
        metadata: None,
        reasoning: None,
        text: None,
    }
}

fn completion(content: Option<&str>) -> ChatCompletionResponse {
    ChatCompletionResponse {
        id: "c".into(),
        object: "chat.completion".into(),
        created: 42,
        model: "down-1".into(),
        choices: vec![ChatChoice {
            index: 0,
            message: ChatResponseMessage {
                role: Some("assistant".into()),
                content: content.map(|c| c.to_string()),
                reasoning_content: None,
                tool_calls: None,
            },
            finish_reason: Some("stop".into()),
        }],
        usage: Some(ChatUsage {
            prompt_tokens: 3,
            completion_tokens: 4,
            total_tokens: 7,
            completion_tokens_details: None,
            prompt_tokens_details: None,
            prompt_cache_hit_tokens: None,
            prompt_cache_miss_tokens: None,
        }),
        error: None,
    }
}

const KEY_HEX: &str = "000102030405060708090a0b0c0d0e0f101112131415161718191a1b1c1d1e1f";

// ── Authentication ──────────────────────────────────────────────────────

#[test]
fn auth_disabled_accepts_anything() {
    assert!(check_auth(&config(false), None).is_ok());
}

#[test]
fn auth_accepts_listed_bearer_key() {
    assert!(check_auth(&config(true), Some("Bearer sk-good")).is_ok());
}

#[test]
fn auth_rejects_missing_or_unknown_key() {
    let e = check_auth(&config(true), Some("Bearer sk-bad")).unwrap_err();
    assert_eq!(e.status, 401);
    let v = to_serde(&e.body);
    assert_eq!(v["error"]["type"], "authentication_error");
    assert_eq!(v["error"]["message"], "Invalid or missing API key");
    assert!(check_auth(&config(true), None).is_err());
    assert!(check_auth(&config(true), Some("sk-good")).is_err());
}

// ── Models and routing ─────────────────────────────────────────────────

#[test]
fn models_are_listed_in_configured_order() {
    let v = to_serde(&list_models_body(&config(false)));
    assert_eq!(v["object"], "list");
    assert_eq!(v["data"][0]["id"], "m1");
    assert_eq!(v["data"][1]["id"], "m2");
    assert_eq!(v["data"][0]["object"], "model");
    assert_eq!(v["data"][0]["owned_by"], "responses-proxy");
    assert_eq!(v["data"][0]["created"], 0);
}

#[test]
fn routing_sends_to_the_downstream_model() {
    let routed = route_request(request("m2", Input::String("hi".into())), &config(false), None).unwrap();
    assert_eq!(routed.chat.model, "down-2");
    assert_eq!(routed.provider.base_url, "https://two.example");
    assert_eq!(routed.original_model, "m2");
    assert!(routed.stream);
}

#[test]
fn routing_unknown_model_lists_available() {
    let e = route_request(request("nope", Input::String("hi".into())), &config(false), None)
        .err()
        .unwrap();
    assert_eq!(e.status, 400);
    let v = to_serde(&e.body);
    assert_eq!(v["error"]["type"], "invalid_request_error");
    assert_eq!(v["error"]["message"], r#"Unknown model: nope. Available: ["m1", "m2"]"#);
}

#[test]
fn error_answers_carry_their_messages() {
    let e = downstream_error(503, "busy");
    assert_eq!(e.status, 502);
    assert_eq!(to_serde(&e.body)["error"]["message"], "Downstream returned 503: busy");
    let p = request_parse_error("bad");
    assert_eq!(p.status, 400);
    assert_eq!(to_serde(&p.body)["error"]["message"], "Failed to parse request: bad");
}

#[test]
fn cancel_and_failed_answers() {
    let c = to_serde(&cancel_body("resp_1", Number::PosInt(5)));
    assert_eq!(c["id"], "resp_1");
    assert_eq!(c["status"], "cancelled");
    assert_eq!(c["created_at"], 5);
    assert_eq!(c["model"], "");
    let f = to_serde(&failed_event("resp_1", "m1"));
    assert_eq!(f["type"], "response.failed");
    assert_eq!(f["response"]["status"], "failed");
}

#[test]
fn sessions_go_stale_after_thirty_minutes() {
    assert!(!session_is_stale(1799));
    assert!(session_is_stale(1800));
}

// ── Server-sent events ──────────────────────────────────────────────────

#[test]
fn sse_events_are_split_on_blank_lines() {
    let buffer = "event: x\ndata: {\"a\":1}\n\ndata: [DONE]\n\nrest";
    let (d1, rest1) = next_sse_event(buffer).unwrap();
    assert_eq!(d1.as_deref(), Some("{\"a\":1}"));
    let (d2, rest2) = next_sse_event(&rest1).unwrap();
    assert_eq!(d2.as_deref(), Some("[DONE]"));
    assert_eq!(rest2, "rest");
    assert!(next_sse_event(&rest2).is_none());
}

#[test]
fn sse_event_without_data_has_none() {
    let (d, rest) = next_sse_event(": keep-alive\n\n").unwrap();
    assert!(d.is_none());
    assert_eq!(rest, "");
}

// ── Encryption ──────────────────────────────────────────────────────────

#[test]
fn encryption_round_trips() {
    let key = compact_key_from_hex(KEY_HEX).unwrap();
    let sealed = encrypt(&key, "summary text").unwrap();
    assert_ne!(sealed, "summary text");
    assert!(sealed.chars().all(|c| c.is_ascii_hexdigit()));
    assert_eq!(decrypt(&key, &sealed).as_deref(), Some("summary text"));
}

#[test]
fn decrypting_other_text_fails() {
    let key = compact_key_from_hex(KEY_HEX).unwrap();
    assert!(decrypt(&key, "not hex").is_none());
    assert!(decrypt(&key, "00").is_none());
    let other = compact_key_from_hex(&"ff".repeat(32)).unwrap();
    let sealed = encrypt(&key, "x").unwrap();
    assert!(decrypt(&other, &sealed).is_none());
}

#[test]
fn compact_key_needs_thirty_two_hex_bytes() {
    let key = compact_key_from_hex(KEY_HEX).unwrap();
    assert_eq!(key[0], 0);
    assert_eq!(key[31], 0x1f);
    assert!(compact_key_from_hex("").is_none());
    assert!(compact_key_from_hex("0011").is_none());
    assert!(compact_key_from_hex(&"zz".repeat(32)).is_none());
}

#[test]
fn ids_carry_their_prefix_and_hex() {
    let id = new_id("msg_");
    assert!(id.starts_with("msg_"));
    assert_eq!(id.len(), 36);
    assert!(id[4..].chars().all(|c| c.is_ascii_hexdigit() && !c.is_ascii_uppercase()));
    assert_ne!(new_id("msg_"), id);
}

// ── Input items ─────────────────────────────────────────────────────────

#[test]
fn input_items_read_back_as_written() {
    let items = vec![
        InputItem::Message(InputMessage {
            role: MessageRole::Assistant,
            content: vec![InputContentBlock::Text { text: "hi".into() }],
            status: Some("completed".into()),
        }),
        InputItem::FunctionCall(FunctionCallItem {
            call_id: "c1".into(),
            name: "f".into(),
            arguments: "{}".into(),
            id: None,
            status: None,
        }),
    ];
    let input = Input::from_items(items);
    match input {
        Input::Array(a) => {
            assert_eq!(a.len(), 2);
            match parse_input_item(&a[0]) {
                InputItem::Message(m) => {
                    assert_eq!(m.role, MessageRole::Assistant);
                    assert_eq!(m.status.as_deref(), Some("completed"));
                    assert!(matches!(&m.content[0], InputContentBlock::Text { text } if text == "hi"));
                }
                _ => panic!("expected a message"),
            }
            match parse_input_item(&a[1]) {
                InputItem::FunctionCall(f) => {
                    assert_eq!(f.call_id, "c1");
                    assert!(f.id.is_none());
                }
                _ => panic!("expected a function call"),
            }
        }
        _ => panic!("expected an array"),
    }
}

#[test]
fn image_payloads_read_back_without_their_type() {
    let payload = j(r#"{"detail":"low","image_url":"data:x"}"#);
    let item = InputItem::Message(InputMessage {
        role: MessageRole::User,
        content: vec![InputContentBlock::Image(payload)],
        status: None,
    });
    let written = item.to_json();
    assert_eq!(to_serde(&written)["content"][0]["type"], "input_image");
    match parse_input_item(&written) {
        InputItem::Message(m) => match &m.content[0] {
            InputContentBlock::Image(p) => {
                let expected: serde_json::Value = serde_json::from_str(r#"{"detail":"low","image_url":"data:x"}"#).unwrap();
                assert_eq!(to_serde(p), expected);
            }
            _ => panic!("expected an image"),
        },
        _ => panic!("expected a message"),
    }
}

#[test]
fn malformed_items_read_as_unknown() {
    assert!(matches!(parse_input_item(&j(r#"{"type":"message","role":"robot"}"#)), InputItem::Unknown));
    assert!(matches!(parse_input_item(&j(r#"{"type":"function_call","name":"f"}"#)), InputItem::Unknown));
    assert!(matches!(parse_input_item(&j(r#"{"type":"mystery"}"#)), InputItem::Unknown));
    assert!(matches!(parse_input_item(&j(r#"[1,2]"#)), InputItem::Unknown));
}

// ── Rewrite paths ───────────────────────────────────────────────────────

#[test]
fn written_values_read_back() {
    let mut body = j(r#"{"a":{"b":[1,2]}}"#);
    set_path(&mut body, "/a/b/1", j("5")).unwrap();
    set_path(&mut body, "/x/y", j(r#""new""#)).unwrap();
    assert_eq!(to_serde(get_path(&body, "/a/b/1").unwrap()), sv("5"));
    assert_eq!(to_serde(get_path(&body, "/x/y").unwrap()), sv(r#""new""#));
    remove_path(&mut body, "/x/y");
    assert!(get_path(&body, "/x/y").is_none());
}

#[test]
fn writing_past_an_array_end_fails() {
    let mut body = j(r#"{"a":[1]}"#);
    let e = set_path(&mut body, "/a/3", j("0")).unwrap_err();
    assert_eq!(e, "rewrite array index out of bounds: 3");
}

#[test]
fn normalizing_twice_changes_nothing() {
    let once = normalize_path("a.b~c.d/e");
    assert_eq!(once, "/a/b~0c/d~1e");
    assert_eq!(normalize_path(&once), once);
    assert_eq!(normalize_path(""), "");
}

#[test]
fn pointer_paths_must_start_with_slash() {
    assert_eq!(pointer_tokens("/a~1b/~0c").unwrap(), vec!["a/b".to_string(), "~c".to_string()]);
    assert!(pointer_tokens("a").is_err());
}

// ── Model map ───────────────────────────────────────────────────────────

#[test]
fn model_map_reads_back_the_last_insert() {
    let mut m = ModelMap::new();
    m.insert("a".into(), provider("u1", "k1", "d1"));
    m.insert("b".into(), provider("u2", "k2", "d2"));
    m.insert("a".into(), provider("u3", "k3", "d3"));
    assert_eq!(m.len(), 2);
    assert_eq!(m.get("a").unwrap().base_url, "u3");
    assert_eq!(m.get("b").unwrap().base_url, "u2");
    assert!(m.get("c").is_none());
}

// ── Compaction ──────────────────────────────────────────────────────────

fn history() -> Vec<Json> {
    vec![
        j(r#"{"type":"message","role":"developer","content":[{"type":"input_text","text":"rules"}]}"#),
        j(r#"{"type":"message","role":"user","content":[{"type":"input_text","text":"<environment_context>cwd</environment_context>"}]}"#),
        j(r#"{"type":"message","role":"user","content":[{"type":"input_text","text":"fix it"},{"type":"input_text","text":"please"}]}"#),
        j(r#"{"type":"function_call","call_id":"c1","name":"exec","arguments":"{\"cmd\":\"ls\"}"}"#),
        j(r#"{"type":"function_call_output","call_id":"c1","output":"Exit code: 0\nOutput:\n  a.txt  "}"#),
        j(r#"{"type":"function_call","call_id":"c2","name":"read","arguments":"{}"}"#),
    ]
}

#[test]
fn conversation_is_written_as_tagged_text() {
    let text = conversation_text(&history(), 0);
    assert_eq!(
        text,
        "<user>\nfix it\nplease\n</user>\n\
         <tool_call>\nexec({\"cmd\":\"ls\"})\n</tool_call>\n<tool_output>\na.txt\n</tool_output>\n\
         <tool_call>\nread({})\n</tool_call>\n<tool_output>\n(no output)\n</tool_output>\n"
    );
}

#[test]
fn output_cut_needs_a_character_after_the_marker() {
    assert!(output_can_be_cut("plain"));
    assert!(output_can_be_cut("x\nOutput:\nyz"));
    assert!(!output_can_be_cut("x\nOutput:\n"));
    assert!(!output_can_be_cut("x\nOutput:\né"));
}

#[test]
fn compaction_prompt_starts_after_the_last_compaction() {
    let key = compact_key_from_hex(KEY_HEX).unwrap();
    let sealed = encrypt(&key, "earlier summary").unwrap();
    let mut h = vec![j(r#"{"type":"message","role":"user","content":[{"type":"input_text","text":"old"}]}"#)];
    h.push(j(&format!(r#"{{"type":"compaction","encrypted_content":"{}"}}"#, sealed)));
    h.push(j(r#"{"type":"message","role":"user","content":[{"type":"input_text","text":"new"}]}"#));
    assert_eq!(previous_summary(&h, 2, Some(&key)), "<previous_summary>\nearlier summary\n</previous_summary>\n\n");
    assert_eq!(conversation_text(&h, 2), "<user>\nnew\n</user>\n");
}

#[test]
fn replace_with_an_empty_pattern_surrounds_each_character() {
    assert_eq!(replace_str("ab", "", "x"), "ab".replace("", "x"));
    assert_eq!(replace_str("ab", "", "x"), "xaxbx");
    assert_eq!(replace_str("", "", "x"), "x");
    assert_eq!(replace_str("a~b/c", "~", "~0"), "a~0b/c");
}

#[test]
fn admission_checks_the_key_then_the_body_then_the_model() {
    let e = admit_request(&config(true), None, Err("bad body".into()), None).err().unwrap();
    assert_eq!(e.status, 401);
    assert_eq!(to_serde(&e.body)["error"]["type"], "authentication_error");
    let e = admit_request(&config(true), Some("Bearer sk-good"), Err("bad body".into()), None)
        .err()
        .unwrap();
    assert_eq!(e.status, 400);
    assert_eq!(to_serde(&e.body)["error"]["message"], "Failed to parse request: bad body");
    let e = admit_request(&config(false), None, Ok(request("nope", Input::String("hi".into()))), None)
        .err()
        .unwrap();
    assert_eq!(e.status, 400);
    let routed =
        admit_request(&config(true), Some("Bearer sk-good"), Ok(request("m2", Input::String("hi".into()))), None)
            .unwrap();
    assert_eq!(routed.chat.model, "down-2");
}

#[test]
fn compaction_admission_checks_the_key_then_the_body_then_the_model() {
    let e = admit_compact(&config(true), Some("Bearer sk-bad"), Err("bad".into()), None, None)
        .unwrap()
        .err()
        .unwrap();
    assert_eq!(e.status, 401);
    let e = admit_compact(&config(false), None, Err("missing field `model`".into()), None, None)
        .unwrap()
        .err()
        .unwrap();
    assert_eq!(e.status, 400);
    assert_eq!(to_serde(&e.body)["error"]["message"], "missing field `model`");
    let req = CompactRequest {
        model: "nope".into(),
        input: Some(Input::String("hi".into())),
        instructions: None,
        previous_response_id: None,
    };
    let e = admit_compact(&config(false), None, Ok(req), None, None).unwrap().err().unwrap();
    assert_eq!(e.status, 400);
    assert_eq!(to_serde(&e.body)["error"]["message"], "Unknown model: nope");
    let req = CompactRequest {
        model: "m1".into(),
        input: Some(Input::String("hi".into())),
        instructions: None,
        previous_response_id: None,
    };
    let plan = admit_compact(&config(false), None, Ok(req), None, None).unwrap().unwrap();
    assert_eq!(plan.url, "https://one.example/chat/completions");
    assert_eq!(plan.api_key, "k1");
}

#[test]
fn compaction_summary_is_lowercase_hex_of_nonce_and_sealed_text() {
    let key = compact_key_from_hex(KEY_HEX).unwrap();
    let resp = compacted_response(&completion(Some("the summary")), vec![], Some(&key));
    assert_eq!(resp.output.len(), 1);
    let content = match &resp.output[0] {
        CompactedOutputItem::Compaction(c) => c.encrypted_content.clone(),
        _ => panic!("expected the compaction item"),
    };
    // 12 nonce bytes, the 11 summary bytes and a 16-byte tag, two digits each.
    assert_eq!(content.len(), 2 * (12 + 11 + 16));
    assert!(content.chars().all(|c| c.is_ascii_digit() || ('a'..='f').contains(&c)));
    assert_eq!(decrypt(&key, &content).as_deref(), Some("the summary"));
    let plain = compacted_response(&completion(Some("the summary")), vec![], None);
    match &plain.output[0] {
        CompactedOutputItem::Compaction(c) => assert_eq!(c.encrypted_content, "the summary"),
        _ => panic!("expected the compaction item"),
    }
}
