#![allow(dead_code)]
use responses_proxy::sse::next_sse_event;
use responses_proxy::streaming::{process_chunk, StreamEvent, StreamState};
use responses_proxy::value::{Json, Number};

fn from_serde(v: &serde_json::Value) -> Json {
    match v {
        serde_json::Value::Null => Json::Null,
        serde_json::Value::Bool(b) => Json::Bool(*b),
        serde_json::Value::Number(n) => Json::Number(match (n.as_u64(), n.as_i64()) {
            (Some(u), _) => Number::PosInt(u),
            (None, Some(i)) => Number::NegInt(i),
            (None, None) => Number::Float(n.to_string()),
        }),
        serde_json::Value::String(s) => Json::String(s.clone()),
        serde_json::Value::Array(a) => Json::Array(a.iter().map(from_serde).collect()),
        serde_json::Value::Object(o) => {
            Json::Object(o.iter().map(|(k, x)| (k.clone(), from_serde(x))).collect())
        }
    }
}

fn to_serde(v: &Json) -> serde_json::Value {
    match v {
        Json::Null => serde_json::Value::Null,
        Json::Bool(b) => serde_json::Value::Bool(*b),
        Json::Number(Number::PosInt(u)) => serde_json::Value::from(*u),
        Json::Number(Number::NegInt(i)) => serde_json::Value::from(*i),
        Json::Number(Number::Float(t)) => serde_json::Value::Number(t.parse().unwrap()),
        Json::String(s) => serde_json::Value::String(s.clone()),
        Json::Array(a) => serde_json::Value::Array(a.iter().map(to_serde).collect()),
        Json::Object(f) => serde_json::Value::Object(
            f.iter().map(|(k, x)| (k.clone(), to_serde(x))).collect(),
        ),
    }
}

/// A JSON value written as text.
fn j(text: &str) -> Json {
    from_serde(&serde_json::from_str::<serde_json::Value>(text).unwrap())
}

/// Whether two JSON values are equal.
fn same(a: &Json, b: &Json) -> bool {
    to_serde(a) == to_serde(b)
}

fn make_state() -> StreamState {
    StreamState::new(
        "resp_test".into(),
        "msg_test".into(),
        "deepseek-v4-pro".into(),
    )
}

/// Find the Completed event in a vec of events from [DONE] processing.
fn find_completed(events: &[StreamEvent]) -> &StreamEvent {
    events
        .iter()
        .find(|e| matches!(e, StreamEvent::Completed(_)))
        .expect("Expected a Completed event")
}

#[test]
fn test_single_text_chunk() {
    let mut state = make_state();
    let data = r#"{"id":"chatcmpl-1","object":"chat.completion.chunk","created":1715550000,"model":"deepseek-v4-pro","choices":[{"index":0,"delta":{"content":"Hello"},"finish_reason":null}]}"#;

    let events = process_chunk(&mut state, data).unwrap();
    assert!(events.iter().any(|e| matches!(e, StreamEvent::Created(_))));
    assert!(
        events
            .iter()
            .any(|e| matches!(e, StreamEvent::OutputTextDelta(_)))
    );
    assert_eq!(state.accumulated_text, "Hello");
}

#[test]
fn test_multiple_text_chunks_accumulate() {
    let mut state = make_state();

    process_chunk(&mut state, r#"{"choices":[{"delta":{"content":"Hello"}}]}"#);
    process_chunk(
        &mut state,
        r#"{"choices":[{"delta":{"content":" World"}}]}"#,
    );
    process_chunk(&mut state, r#"{"choices":[{"delta":{"content":"!"}}]}"#);

    assert_eq!(state.accumulated_text, "Hello World!");
}

#[test]
fn test_created_event_only_once() {
    let mut state = make_state();

    let events1 =
        process_chunk(&mut state, r#"{"choices":[{"delta":{"content":"A"}}]}"#).unwrap();
    let has_created1 = events1.iter().any(|e| matches!(e, StreamEvent::Created(_)));
    assert!(has_created1);

    let events2 =
        process_chunk(&mut state, r#"{"choices":[{"delta":{"content":"B"}}]}"#).unwrap();
    let has_created2 = events2.iter().any(|e| matches!(e, StreamEvent::Created(_)));
    assert!(!has_created2, "Created event should only be emitted once");
}

#[test]
fn test_done_produces_completed_event() {
    let mut state = make_state();
    state.accumulated_text = "Full response".into();

    let events = process_chunk(&mut state, "[DONE]").unwrap();
    match find_completed(&events) {
        StreamEvent::Completed(v) => {
            let v = &to_serde(v);
            assert_eq!(v["type"], "response.completed");
            let output = v["response"]["output"].as_array().unwrap();
            assert_eq!(output[0]["content"][0]["text"], "Full response");
            assert_eq!(output[0]["type"], "message");
        }
        other => panic!("Expected Completed, got {:?}", other),
    }
}

#[test]
fn test_tool_call_delta_accumulation() {
    let mut state = make_state();

    // First chunk: id and partial name/arguments
    process_chunk(
        &mut state,
        r#"{"choices":[{"delta":{"tool_calls":[{"index":0,"id":"call_abc","type":"function","function":{"name":"get_we","arguments":"{\"city\":"}}]}}]}"#,
    );
    assert_eq!(state.tool_calls.len(), 1);
    assert_eq!(state.tool_calls[0].id, "call_abc");
    assert_eq!(state.tool_calls[0].name, "get_we");
    assert!(state.tool_calls[0].arguments.starts_with(r#"{"city":"#));

    // Second chunk: more arguments
    process_chunk(
        &mut state,
        r#"{"choices":[{"delta":{"tool_calls":[{"index":0,"function":{"arguments":"\"NYC\"}"}}]}}]}"#,
    );
    assert_eq!(state.tool_calls[0].name, "get_we"); // name unchanged
    assert!(state.tool_calls[0].arguments.contains("NYC"));

    // Done
    let events = process_chunk(&mut state, "[DONE]").unwrap();
    match find_completed(&events) {
        StreamEvent::Completed(v) => {
            let v = &to_serde(v);
            let output = v["response"]["output"].as_array().unwrap();
            // Should have a function_call item
            let fc = output
                .iter()
                .find(|o| o["type"] == "function_call")
                .unwrap();
            assert_eq!(fc["call_id"], "call_abc");
            assert_eq!(fc["name"], "get_we");
            assert!(fc["arguments"].as_str().unwrap().contains("NYC"));
        }
        other => panic!("Expected Completed, got {:?}", other),
    }
}

#[test]
fn test_multiple_tool_calls_in_streaming() {
    let mut state = make_state();

    // Tool call 0
    process_chunk(
        &mut state,
        r#"{"choices":[{"delta":{"tool_calls":[{"index":0,"id":"call_1","type":"function","function":{"name":"get_weather","arguments":"{\"city\":\"NYC\"}"}}]}}]}"#,
    );

    // Tool call 1 (in same or subsequent chunk)
    process_chunk(
        &mut state,
        r#"{"choices":[{"delta":{"tool_calls":[{"index":1,"id":"call_2","type":"function","function":{"name":"get_time","arguments":"{\"tz\":\"EST\"}"}}]}}]}"#,
    );

    assert_eq!(state.tool_calls.len(), 2);
    assert_eq!(state.tool_calls[0].name, "get_weather");
    assert_eq!(state.tool_calls[1].name, "get_time");

    let events = process_chunk(&mut state, "[DONE]").unwrap();
    match find_completed(&events) {
        StreamEvent::Completed(v) => {
            let v = &to_serde(v);
            let output = v["response"]["output"].as_array().unwrap();
            let fc_names: Vec<&str> = output
                .iter()
                .filter(|o| o["type"] == "function_call")
                .map(|o| o["name"].as_str().unwrap())
                .collect();
            assert_eq!(fc_names, vec!["get_weather", "get_time"]);
        }
        other => panic!("Expected Completed, got {:?}", other),
    }
}

#[test]
fn test_text_and_tool_calls_together() {
    let mut state = make_state();

    // Text + tool call in same chunk
    process_chunk(
        &mut state,
        r#"{"choices":[{"delta":{"content":"Let me check.","tool_calls":[{"index":0,"id":"call_x","type":"function","function":{"name":"search","arguments":"{}"}}]}}]}"#,
    );

    assert_eq!(state.accumulated_text, "Let me check.");
    assert_eq!(state.tool_calls[0].name, "search");

    let events = process_chunk(&mut state, "[DONE]").unwrap();
    match find_completed(&events) {
        StreamEvent::Completed(v) => {
            let v = &to_serde(v);
            let output = v["response"]["output"].as_array().unwrap();
            let msg = output.iter().find(|o| o["type"] == "message").unwrap();
            assert_eq!(msg["content"][0]["text"], "Let me check.");
            let fc = output
                .iter()
                .find(|o| o["type"] == "function_call")
                .unwrap();
            assert_eq!(fc["name"], "search");
        }
        other => panic!("Expected Completed, got {:?}", other),
    }
}

#[test]
fn test_output_index_no_duplicates_message_then_tool() {
    let mut state = make_state();

    // Text chunk arrives first
    let events1 = process_chunk(
        &mut state,
        r#"{"choices":[{"delta":{"content":"Let me check."}}]}"#,
    )
    .unwrap();
    let text_added = events1
        .iter()
        .find(|e| matches!(e, StreamEvent::OutputItemAdded(_)))
        .unwrap();
    let msg_idx = match text_added {
        StreamEvent::OutputItemAdded(v) => to_serde(v)["output_index"].as_u64().unwrap(),
        _ => panic!(),
    };

    // Tool call arrives in next chunk
    let events2 = process_chunk(
        &mut state,
        r#"{"choices":[{"delta":{"tool_calls":[{"index":0,"id":"call_x","type":"function","function":{"name":"search","arguments":"{}"}}]}}]}"#,
    )
    .unwrap();
    let tc_added = events2
        .iter()
        .find(|e| matches!(e, StreamEvent::OutputItemAdded(_)))
        .unwrap();
    let tc_idx = match tc_added {
        StreamEvent::OutputItemAdded(v) => to_serde(v)["output_index"].as_u64().unwrap(),
        _ => panic!(),
    };

    assert_ne!(
        msg_idx, tc_idx,
        "message and tool_call must have different output_index"
    );
    assert_eq!(tc_idx, msg_idx + 1, "tool_call should come after message");
}

#[test]
fn test_output_index_no_duplicates_reasoning_text_tool() {
    let mut state = make_state();

    process_chunk(
        &mut state,
        r#"{"choices":[{"delta":{"reasoning_content":"Let me think"}}]}"#,
    );
    process_chunk(
        &mut state,
        r#"{"choices":[{"delta":{"content":"Answer","tool_calls":[{"index":0,"id":"call_x","type":"function","function":{"name":"search","arguments":"{}"}}]}}]}"#,
    );

    assert!(state.reasoning_item_added);
    assert!(state.message_item_added);
    assert_eq!(state.tool_calls[0].output_index, 2);
    assert!(state.msg_output_index < state.tool_calls[0].output_index);
}

#[test]
fn test_role_only_delta_produces_no_events() {
    let mut state = make_state();

    // Role-only delta (first chunk in some Chat API implementations)
    let events = process_chunk(
        &mut state,
        r#"{"choices":[{"delta":{"role":"assistant"},"finish_reason":null}]}"#,
    );

    // No text, no tool calls → no events, but state is still uninitialized
    // The created event hasn't been emitted yet since there's no content
    assert!(events.is_none());
    assert!(!state.has_started);
}

#[test]
fn test_empty_choices_produces_no_events() {
    let mut state = make_state();
    let events = process_chunk(&mut state, r#"{"choices":[]}"#);
    assert!(events.is_none());
}

#[test]
fn test_invalid_json_produces_no_events() {
    let mut state = make_state();
    let events = process_chunk(&mut state, "not valid json {{{");
    assert!(events.is_none());
}

#[test]
fn test_sse_event_split_across_chunks_reassembly() {
    // Simulate how the main loop reassembles split SSE events.
    // This tests the buffer logic pattern.
    let mut state = make_state();
    let mut buffer = String::new();

    // Simulate a chunk that contains half an SSE event
    let chunk1 = r#"data: {"choices":[{"del"#;
    buffer.push_str(chunk1);
    // No complete event yet
    assert!(buffer.find("\n\n").is_none());

    // Second chunk completes the event
    let chunk2 = r#"ta":{"content":"Hello"}}]}

data: [DONE]

"#;
    buffer.push_str(chunk2);

    // Now extract complete events
    let mut final_events = Vec::new();
    while let Some((data, rest)) = next_sse_event(&buffer) {
        buffer = rest;
        if let Some(data) = data {
            if let Some(events) = process_chunk(&mut state, &data) {
                final_events.extend(events);
            }
        }
    }

    assert_eq!(state.accumulated_text, "Hello");
    // Should have created + text_delta + completed events
    assert!(
        final_events
            .iter()
            .any(|e| matches!(e, StreamEvent::Created(_)))
    );
    assert!(
        final_events
            .iter()
            .any(|e| matches!(e, StreamEvent::OutputTextDelta(_)))
    );
    assert!(
        final_events
            .iter()
            .any(|e| matches!(e, StreamEvent::Completed(_)))
    );
}

#[test]
fn test_usage_chunk_captured() {
    let mut state = make_state();
    state.accumulated_text = "Answer".into();

    // DeepSeek sends usage chunk before [DONE]
    let events = process_chunk(
        &mut state,
        r#"{"choices":[],"usage":{"prompt_tokens":10,"completion_tokens":5,"total_tokens":15,"completion_tokens_details":{"reasoning_tokens":3}}}"#,
    );
    // Usage-only chunk should not emit events
    assert!(events.is_none());
    // But usage should be captured
    assert!(state.usage.is_some());
    assert_eq!(to_serde(state.usage.as_ref().unwrap())["prompt_tokens"], 10);

    // [DONE] should include usage in completed
    let events = process_chunk(&mut state, "[DONE]").unwrap();
    match find_completed(&events) {
        StreamEvent::Completed(v) => {
            let v = &to_serde(v);
            let usage = &v["response"]["usage"];
            assert_eq!(usage["prompt_tokens"], 10);
            assert_eq!(usage["completion_tokens"], 5);
            assert_eq!(usage["total_tokens"], 15);
        }
        other => panic!("Expected Completed, got {:?}", other),
    }
}

#[test]
fn test_content_and_finish_reason_in_same_chunk() {
    let mut state = make_state();

    // Last content chunk often has finish_reason
    process_chunk(
        &mut state,
        r#"{"choices":[{"delta":{"content":"End"},"finish_reason":"stop"}]}"#,
    );

    assert_eq!(state.accumulated_text, "End");

    let events = process_chunk(&mut state, "[DONE]").unwrap();
    match find_completed(&events) {
        StreamEvent::Completed(v) => {
            let v = &to_serde(v);
            assert_eq!(v["response"]["status"], "completed");
        }
        other => panic!("Expected Completed, got {:?}", other),
    }
}

#[test]
fn test_reasoning_content_accumulates_and_appears_in_completed() {
    let mut state = make_state();

    // Simulate thinking mode streaming: reasoning_content comes before content
    process_chunk(
        &mut state,
        r#"{"choices":[{"delta":{"reasoning_content":"Let me"}}]}"#,
    );
    process_chunk(
        &mut state,
        r#"{"choices":[{"delta":{"reasoning_content":" think about this."}}]}"#,
    );
    process_chunk(
        &mut state,
        r#"{"choices":[{"delta":{"content":"The answer is 42."}}]}"#,
    );

    assert_eq!(state.reasoning_content, "Let me think about this.");
    assert_eq!(state.accumulated_text, "The answer is 42.");

    let events = process_chunk(&mut state, "[DONE]").unwrap();
    match find_completed(&events) {
        StreamEvent::Completed(v) => {
            let v = &to_serde(v);
            let output = v["response"]["output"].as_array().unwrap();
            // First output item should be reasoning
            let reasoning = output.iter().find(|o| o["type"] == "reasoning").unwrap();
            assert_eq!(reasoning["content"][0]["type"], "reasoning_text");
            assert_eq!(reasoning["content"][0]["text"], "Let me think about this.");
            // Second output item should be the message
            let msg = output.iter().find(|o| o["type"] == "message").unwrap();
            assert_eq!(msg["content"][0]["text"], "The answer is 42.");
        }
        other => panic!("Expected Completed, got {:?}", other),
    }
}

#[test]
fn test_no_reasoning_when_not_present() {
    let mut state = make_state();
    state.accumulated_text = "Plain answer without thinking.".into();

    let events = process_chunk(&mut state, "[DONE]").unwrap();
    match find_completed(&events) {
        StreamEvent::Completed(v) => {
            let v = &to_serde(v);
            let output = v["response"]["output"].as_array().unwrap();
            // Should NOT have a reasoning item
            assert!(
                !output.iter().any(|o| o["type"] == "reasoning"),
                "No reasoning item when reasoning_content is empty"
            );
        }
        other => panic!("Expected Completed, got {:?}", other),
    }
}

#[test]
fn test_in_progress_emitted_after_created() {
    let mut state = make_state();

    let events =
        process_chunk(&mut state, r#"{"choices":[{"delta":{"content":"Hi"}}]}"#).unwrap();

    // Created first, then InProgress
    let created_pos = events
        .iter()
        .position(|e| matches!(e, StreamEvent::Created(_)))
        .unwrap();
    let in_progress_pos = events
        .iter()
        .position(|e| matches!(e, StreamEvent::InProgress(_)))
        .unwrap();
    assert!(
        created_pos < in_progress_pos,
        "created must come before in_progress"
    );
}
