#![allow(dead_code)]
use responses_proxy::config::{ModelMap, ResolvedConfig, ResolvedProvider};
use responses_proxy::streaming::{process_chunk, StreamState};
use responses_proxy::value::{Json, Number};
use responses_proxy::ws::{
    begin_ws_turn, classify_ws_message, is_cancel_frame, record_turn, ws_generate, ws_model,
    ws_previous_id, ClientEvent, Error, ErrorEvent, WsFrame, WsTurn,
};

fn from_serde(v: &serde_json::Value) -> Json {
    match v {
        serde_json::Value::Null => Json::Null,
        serde_json::Value::Bool(b) => Json::Bool(*b),
        serde_json::Value::Number(n) => Json::Number(match (n.as_u64(), n.as_i64()) {
            (Some(u), _) => Number::PosInt(u),
            (None, Some(i)) => Number::NegInt(i),
            (None, None) => Number::Float(n.to_string()),
        }),
        serde_json::Value::String(s) => Json::String(s.clone()),
        serde_json::Value::Array(a) => Json::Array(a.iter().map(from_serde).collect()),
        serde_json::Value::Object(o) => {
            Json::Object(o.iter().map(|(k, x)| (k.clone(), from_serde(x))).collect())
        }
    }
}

fn to_serde(v: &Json) -> serde_json::Value {
    match v {
        Json::Null => serde_json::Value::Null,
        Json::Bool(b) => serde_json::Value::Bool(*b),
        Json::Number(Number::PosInt(u)) => serde_json::Value::from(*u),
        Json::Number(Number::NegInt(i)) => serde_json::Value::from(*i),
        Json::Number(Number::Float(t)) => serde_json::Value::Number(t.parse().unwrap()),
        Json::String(s) => serde_json::Value::String(s.clone()),
        Json::Array(a) => serde_json::Value::Array(a.iter().map(to_serde).collect()),
        Json::Object(f) => serde_json::Value::Object(
            f.iter().map(|(k, x)| (k.clone(), to_serde(x))).collect(),
        ),
    }
}

fn j(text: &str) -> Json {
    from_serde(&serde_json::from_str::<serde_json::Value>(text).unwrap())
}

fn event(text: &str) -> ClientEvent {
    ClientEvent::from_json(j(text)).unwrap()
}

fn config() -> ResolvedConfig {
    let mut models = ModelMap { entries: Vec::new() };
    models.insert(
        "gpt-5.5".to_string(),
        ResolvedProvider {
            base_url: "https://api.example.com".to_string(),
            api_key: "sk-test".to_string(),
            downstream_model: "deepseek-chat".to_string(),
        },
    );
    ResolvedConfig {
        listen_addr: "0.0.0.0:3000".to_string(),
        request_timeout_secs: 120,
        auth_enabled: false,
        auth_keys: Vec::new(),
        tool_type_allowlist: vec!["function".to_string()],
        models,
        model_names: vec!["gpt-5.5".to_string()],
    }
}

#[test]
fn ws_response_create_minimal() {
    let json = r#"{"type":"response.create","model":"gpt-5.2"}"#;
    match event(json) {
        ClientEvent::ResponseCreate(req) => {
            assert_eq!(ws_model(&req, &vec![]), "gpt-5.2");
            assert!(ws_generate(&req));
        }
        _ => panic!("expected ResponseCreate"),
    }
}

#[test]
fn ws_ping() {
    let ev = event(r#"{"type":"ping"}"#);
    assert!(matches!(ev, ClientEvent::Ping));
}

#[test]
fn ws_cancel() {
    let ev = event(r#"{"type":"response.cancel"}"#);
    assert!(matches!(ev, ClientEvent::ResponseCancel));
}

#[test]
fn ws_error_event_format() {
    let err = ErrorEvent::with_param(
        400,
        Error::TYPE_INVALID_REQUEST,
        "previous_response_not_found",
        "not found".into(),
        "previous_response_id",
    );
    let json = err.to_json_string();
    let v: serde_json::Value = serde_json::from_str(&json).unwrap();
    assert_eq!(v["type"], "error");
    assert_eq!(v["status"], 400);
    assert_eq!(v["error"]["code"], "previous_response_not_found");
    assert_eq!(v["error"]["param"], "previous_response_id");
}

#[test]
fn ws_error_event_without_param_writes_null() {
    let err = ErrorEvent::new(500, "server_error", "internal", "boom".into());
    let v = to_serde(&err.to_json());
    assert_eq!(v["error"]["message"], "boom");
    assert_eq!(v["error"]["type"], "server_error");
    assert!(v["error"]["param"].is_null());
}

#[test]
fn ws_frames_are_classified() {
    assert!(matches!(classify_ws_message("not json"), WsFrame::NotJson));
    assert!(matches!(classify_ws_message(r#"{"type":"other"}"#), WsFrame::Unrecognized));
    assert!(matches!(
        classify_ws_message(r#"{"type":"ping"}"#),
        WsFrame::Event(ClientEvent::Ping)
    ));
}

#[test]
fn ws_cancel_frame_ignores_surrounding_space() {
    assert!(is_cancel_frame("  {\"type\":\"response.cancel\"}\n"));
    assert!(!is_cancel_frame("{\"type\": \"response.cancel\"}"));
}

#[test]
fn ws_turn_unknown_model_is_an_error_event() {
    let ev = j(r#"{"type":"response.create","model":"nope","input":"hi"}"#);
    let (history, turn) = begin_ws_turn(&ev, None, &config(), None, Number::PosInt(1));
    assert_eq!(history.len(), 1);
    match turn {
        WsTurn::UnknownModel(e) => {
            let v = to_serde(&e);
            assert_eq!(v["type"], "error");
            assert_eq!(v["error"]["message"], "Unknown model: nope");
        }
        _ => panic!("expected UnknownModel"),
    }
}

#[test]
fn ws_turn_warmup_sends_two_events() {
    let ev = j(r#"{"type":"response.create","generate":false}"#);
    let (_, turn) = begin_ws_turn(&ev, None, &config(), None, Number::PosInt(7));
    match turn {
        WsTurn::Warmup { response_id, created, completed } => {
            assert!(response_id.starts_with("resp_"));
            let c = to_serde(&created);
            assert_eq!(c["type"], "response.created");
            assert_eq!(c["response"]["status"], "in_progress");
            assert_eq!(c["response"]["model"], "gpt-5.5");
            assert_eq!(c["response"]["created_at"], 7);
            let d = to_serde(&completed);
            assert_eq!(d["type"], "response.completed");
            assert_eq!(d["response"]["id"], response_id.as_str());
        }
        _ => panic!("expected Warmup"),
    }
}

#[test]
fn ws_turn_continues_stored_history() {
    let ev = j(r#"{"type":"response.create","previous_response_id":"resp_1","input":"again"}"#);
    assert_eq!(ws_previous_id(&ev).as_deref(), Some("resp_1"));
    let stored = vec![j(r#"{"type":"message","role":"user","content":[{"type":"input_text","text":"first"}]}"#)];
    let (history, turn) = begin_ws_turn(&ev, Some(stored), &config(), None, Number::PosInt(1));
    assert_eq!(history.len(), 2);
    assert_eq!(to_serde(&history[1])["content"][0]["text"], "again");
    match turn {
        WsTurn::Stream(t) => {
            assert_eq!(t.url, "https://api.example.com/chat/completions");
            assert_eq!(t.api_key, "sk-test");
            assert_eq!(t.chat.model, "deepseek-chat");
            assert_eq!(t.chat.stream, Some(true));
            assert_eq!(t.chat.messages.len(), 2);
            assert_eq!(to_serde(&t.created)["sequence_number"], 0);
            assert_eq!(to_serde(&t.in_progress)["sequence_number"], 1);
            assert!(t.state.has_started);
        }
        _ => panic!("expected Stream"),
    }
}

#[test]
fn ws_turn_without_previous_id_ignores_stored() {
    let ev = j(r#"{"type":"response.create","input":[]}"#);
    let stored = vec![j(r#"{"type":"message","role":"user","content":[]}"#)];
    let (history, _) = begin_ws_turn(&ev, Some(stored), &config(), None, Number::PosInt(1));
    assert!(history.is_empty());
}

#[test]
fn ws_turn_appends_reasoning_text_and_calls() {
    let mut state = StreamState::new("resp_x".into(), "msg_x".into(), "gpt-5.5".into());
    process_chunk(&mut state, r#"{"choices":[{"delta":{"reasoning_content":"think"}}]}"#);
    process_chunk(&mut state, r#"{"choices":[{"delta":{"content":"done"}}]}"#);
    process_chunk(
        &mut state,
        r#"{"choices":[{"delta":{"tool_calls":[{"index":0,"id":"call_1","type":"function","function":{"name":"f","arguments":"{}"}}]}}]}"#,
    );
    let mut history = Vec::new();
    record_turn(&mut history, &state);
    assert_eq!(history.len(), 3);
    let r = to_serde(&history[0]);
    assert_eq!(r["type"], "reasoning");
    assert!(r["id"].as_str().unwrap().starts_with("rs_"));
    assert_eq!(r["content"][0]["text"], "think");
    let m = to_serde(&history[1]);
    assert_eq!(m["role"], "assistant");
    assert_eq!(m["content"][0]["text"], "done");
    let c = to_serde(&history[2]);
    assert_eq!(c["type"], "function_call");
    assert_eq!(c["call_id"], "call_1");
}

#[test]
fn ws_turn_without_text_appends_empty_message() {
    let state = StreamState::new("resp_x".into(), "msg_x".into(), "gpt-5.5".into());
    let mut history = Vec::new();
    record_turn(&mut history, &state);
    assert_eq!(history.len(), 1);
    assert_eq!(to_serde(&history[0])["content"], serde_json::Value::Array(vec![]));
}
