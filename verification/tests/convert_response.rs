#![allow(dead_code)]
use responses_proxy::convert_response::chat_to_responses;
use responses_proxy::models::{
    ChatChoice, ChatCompletionResponse, ChatError, ChatFunctionCall, ChatResponseMessage, ChatToolCall,
    ChatUsage, OutputContentBlock, OutputItem,
};
use responses_proxy::value::{Json, Number};

fn from_serde(v: &serde_json::Value) -> Json {
    match v {
        serde_json::Value::Null => Json::Null,
        serde_json::Value::Bool(b) => Json::Bool(*b),
        serde_json::Value::Number(n) => Json::Number(match (n.as_u64(), n.as_i64()) {
            (Some(u), _) => Number::PosInt(u),
            (None, Some(i)) => Number::NegInt(i),
            (None, None) => Number::Float(n.to_string()),
        }),
        serde_json::Value::String(s) => Json::String(s.clone()),
        serde_json::Value::Array(a) => Json::Array(a.iter().map(from_serde).collect()),
        serde_json::Value::Object(o) => {
            Json::Object(o.iter().map(|(k, x)| (k.clone(), from_serde(x))).collect())
        }
    }
}

fn to_serde(v: &Json) -> serde_json::Value {
    match v {
        Json::Null => serde_json::Value::Null,
        Json::Bool(b) => serde_json::Value::Bool(*b),
        Json::Number(Number::PosInt(u)) => serde_json::Value::from(*u),
        Json::Number(Number::NegInt(i)) => serde_json::Value::from(*i),
        Json::Number(Number::Float(t)) => serde_json::Value::Number(t.parse().unwrap()),
        Json::String(s) => serde_json::Value::String(s.clone()),
        Json::Array(a) => serde_json::Value::Array(a.iter().map(to_serde).collect()),
        Json::Object(f) => serde_json::Value::Object(
            f.iter().map(|(k, x)| (k.clone(), to_serde(x))).collect(),
        ),
    }
}

/// A JSON value written as text.
fn j(text: &str) -> Json {
    from_serde(&serde_json::from_str::<serde_json::Value>(text).unwrap())
}

/// Whether two JSON values are equal.
fn same(a: &Json, b: &Json) -> bool {
    to_serde(a) == to_serde(b)
}

#[test]
fn test_simple_text_response() {
    let chat = ChatCompletionResponse {
        id: "chatcmpl-123".into(),
        object: "chat.completion".into(),
        created: 1715550000,
        model: "deepseek-v4-pro".into(),
        choices: vec![ChatChoice {
            index: 0,
            message: ChatResponseMessage {
                role: Some("assistant".into()),
                content: Some("Hello! How can I help you?".into()),
                reasoning_content: None,
                tool_calls: None,
            },
            finish_reason: Some("stop".into()),
        }],
        usage: Some(ChatUsage {
            prompt_tokens: 10,
            completion_tokens: 5,
            total_tokens: 15,
            completion_tokens_details: None,
            prompt_tokens_details: None,
            prompt_cache_hit_tokens: None,
            prompt_cache_miss_tokens: None,
        }),
        error: None,
    };

    let resp = chat_to_responses(chat, "deepseek-v4-pro".into());

    assert_eq!(resp.object, "response");
    assert_eq!(resp.model, "deepseek-v4-pro");
    assert_eq!(resp.status, "completed");
    assert_eq!(resp.created_at as f64, 1715550000.0);
    assert_eq!(resp.output.len(), 1);

    match &resp.output[0] {
        OutputItem::Message(msg) => {
            assert_eq!(msg.role, "assistant");
            assert_eq!(msg.status, "completed");
            assert_eq!(msg.content.len(), 1);
            match &msg.content[0] {
                OutputContentBlock::Text { text, annotations } => {
                    assert_eq!(text, "Hello! How can I help you?");
                    assert!(annotations.is_empty());
                }
                _ => panic!("Expected text content block"),
            }
        }
        _ => panic!("Expected message output item"),
    }

    let usage = resp.usage.unwrap();
    assert_eq!(usage.input_tokens, 10);
    assert_eq!(usage.output_tokens, 5);
    assert_eq!(usage.total_tokens, 15);
}

#[test]
fn test_response_with_tool_calls() {
    let chat = ChatCompletionResponse {
        id: "chatcmpl-456".into(),
        object: "chat.completion".into(),
        created: 1715550000,
        model: "deepseek-v4-pro".into(),
        choices: vec![ChatChoice {
            index: 0,
            message: ChatResponseMessage {
                role: Some("assistant".into()),
                content: Some("Let me check the weather.".into()),
                reasoning_content: None,
                tool_calls: Some(vec![ChatToolCall {
                    id: "call_abc".into(),
                    call_type: "function".into(),
                    function: ChatFunctionCall {
                        name: "get_weather".into(),
                        arguments: r#"{"city":"NYC"}"#.into(),
                    },
                }]),
            },
            finish_reason: Some("tool_calls".into()),
        }],
        usage: Some(ChatUsage {
            prompt_tokens: 20,
            completion_tokens: 10,
            total_tokens: 30,
            completion_tokens_details: None,
            prompt_tokens_details: None,
            prompt_cache_hit_tokens: None,
            prompt_cache_miss_tokens: None,
        }),
        error: None,
    };

    let resp = chat_to_responses(chat, "deepseek-v4-pro".into());

    assert_eq!(resp.output.len(), 2);

    // First item: message with assistant text
    match &resp.output[0] {
        OutputItem::Message(msg) => match &msg.content[0] {
            OutputContentBlock::Text { text, .. } => {
                assert_eq!(text, "Let me check the weather.");
            }
            _ => panic!("Expected text"),
        },
        _ => panic!("Expected message"),
    }

    // Second item: function call
    match &resp.output[1] {
        OutputItem::FunctionCall(fc) => {
            assert_eq!(fc.call_id, "call_abc");
            assert_eq!(fc.name, "get_weather");
            assert_eq!(fc.arguments, r#"{"city":"NYC"}"#);
        }
        _ => panic!("Expected function_call"),
    }
}

#[test]
fn test_usage_mapping() {
    let chat = ChatCompletionResponse {
        id: "chatcmpl-789".into(),
        object: "chat.completion".into(),
        created: 1715550000,
        model: "deepseek-v4-pro".into(),
        choices: vec![ChatChoice {
            index: 0,
            message: ChatResponseMessage {
                role: Some("assistant".into()),
                content: Some("Hi".into()),
                reasoning_content: None,
                tool_calls: None,
            },
            finish_reason: Some("stop".into()),
        }],
        usage: Some(ChatUsage {
            prompt_tokens: 100,
            completion_tokens: 50,
            total_tokens: 150,
            completion_tokens_details: Some(j(r#"{"reasoning_tokens": 20}"#)),
            prompt_tokens_details: None,
            prompt_cache_hit_tokens: None,
            prompt_cache_miss_tokens: None,
        }),
        error: None,
    };

    let resp = chat_to_responses(chat, "deepseek-v4-pro".into());
    let usage = resp.usage.unwrap();

    assert_eq!(usage.input_tokens, 100);
    assert_eq!(usage.output_tokens, 50);
    assert_eq!(usage.total_tokens, 150);
    assert_eq!(usage.output_tokens_details.reasoning_tokens, 20);
    assert_eq!(usage.input_tokens_details.cached_tokens, 0);
}

#[test]
fn test_multiple_choices() {
    let chat = ChatCompletionResponse {
        id: "chatcmpl-multi".into(),
        object: "chat.completion".into(),
        created: 1715550000,
        model: "deepseek-v4-pro".into(),
        choices: vec![
            ChatChoice {
                index: 0,
                message: ChatResponseMessage {
                    role: Some("assistant".into()),
                    content: Some("First choice".into()),
                    reasoning_content: None,
                    tool_calls: None,
                },
                finish_reason: Some("stop".into()),
            },
            ChatChoice {
                index: 1,
                message: ChatResponseMessage {
                    role: Some("assistant".into()),
                    content: Some("Second choice".into()),
                    reasoning_content: None,
                    tool_calls: None,
                },
                finish_reason: Some("stop".into()),
            },
        ],
        usage: None,
        error: None,
    };

    let resp = chat_to_responses(chat, "deepseek-v4-pro".into());
    // Only the first choice is used in Responses API output
    assert_eq!(resp.output.len(), 1);
    match &resp.output[0] {
        OutputItem::Message(msg) => match &msg.content[0] {
            OutputContentBlock::Text { text, .. } => {
                assert_eq!(text, "First choice");
            }
            _ => panic!("Expected text"),
        },
        _ => panic!("Expected message"),
    }
}

#[test]
fn test_length_finish_reason() {
    let chat = ChatCompletionResponse {
        id: "chatcmpl-len".into(),
        object: "chat.completion".into(),
        created: 1715550000,
        model: "deepseek-v4-pro".into(),
        choices: vec![ChatChoice {
            index: 0,
            message: ChatResponseMessage {
                role: Some("assistant".into()),
                content: Some("Truncated...".into()),
                reasoning_content: None,
                tool_calls: None,
            },
            finish_reason: Some("length".into()),
        }],
        usage: None,
        error: None,
    };

    let resp = chat_to_responses(chat, "deepseek-v4-pro".into());
    assert_eq!(resp.status, "completed");
}

#[test]
fn test_content_filter_finish_reason() {
    let chat = ChatCompletionResponse {
        id: "chatcmpl-cf".into(),
        object: "chat.completion".into(),
        created: 1715550000,
        model: "deepseek-v4-pro".into(),
        choices: vec![ChatChoice {
            index: 0,
            message: ChatResponseMessage {
                role: Some("assistant".into()),
                content: None,
                reasoning_content: None,
                tool_calls: None,
            },
            finish_reason: Some("content_filter".into()),
        }],
        usage: None,
        error: None,
    };

    let resp = chat_to_responses(chat, "deepseek-v4-pro".into());
    match &resp.output[0] {
        OutputItem::Message(msg) => {
            assert_eq!(msg.status, "incomplete");
        }
        _ => panic!("Expected message"),
    }
}

#[test]
fn test_error_response() {
    let chat = ChatCompletionResponse {
        id: "".into(),
        object: "error".into(),
        created: 0,
        model: "".into(),
        choices: vec![],
        usage: None,
        error: Some(ChatError {
            message: "Invalid API key".into(),
            code: Some("invalid_api_key".into()),
        }),
    };

    let resp = chat_to_responses(chat, "deepseek-v4-pro".into());
    assert_eq!(resp.status, "failed");
    assert!(resp.error.is_some());
    assert_eq!(resp.output.len(), 0);
}

#[test]
fn test_response_with_reasoning_tokens() {
    let chat = ChatCompletionResponse {
        id: "chatcmpl-reason".into(),
        object: "chat.completion".into(),
        created: 1715550000,
        model: "deepseek-v4-pro".into(),
        choices: vec![ChatChoice {
            index: 0,
            message: ChatResponseMessage {
                role: Some("assistant".into()),
                content: Some("Answer".into()),
                reasoning_content: None,
                tool_calls: None,
            },
            finish_reason: Some("stop".into()),
        }],
        usage: Some(ChatUsage {
            prompt_tokens: 50,
            completion_tokens: 100,
            total_tokens: 150,
            completion_tokens_details: Some(j(r#"{"reasoning_tokens": 80}"#)),
            prompt_tokens_details: None,
            prompt_cache_hit_tokens: None,
            prompt_cache_miss_tokens: None,
        }),
        error: None,
    };

    let resp = chat_to_responses(chat, "deepseek-v4-pro".into());
    let usage = resp.usage.unwrap();
    assert_eq!(usage.output_tokens_details.reasoning_tokens, 80);
    assert_eq!(usage.output_tokens, 100);
}

#[test]
fn test_response_id_is_prefixed() {
    let chat = ChatCompletionResponse {
        id: "some-chat-id-12345".into(),
        object: "chat.completion".into(),
        created: 1715550000,
        model: "deepseek-v4-pro".into(),
        choices: vec![ChatChoice {
            index: 0,
            message: ChatResponseMessage {
                role: Some("assistant".into()),
                content: Some("Hi".into()),
                reasoning_content: None,
                tool_calls: None,
            },
            finish_reason: Some("stop".into()),
        }],
        usage: None,
        error: None,
    };

    let resp = chat_to_responses(chat, "deepseek-v4-pro".into());
    assert!(resp.id.starts_with("resp_"));
}

#[test]
fn test_empty_choices_produces_empty_output() {
    let chat = ChatCompletionResponse {
        id: "chatcmpl-empty".into(),
        object: "chat.completion".into(),
        created: 1715550000,
        model: "deepseek-v4-pro".into(),
        choices: vec![],
        usage: None,
        error: None,
    };

    let resp = chat_to_responses(chat, "deepseek-v4-pro".into());
    assert_eq!(resp.status, "completed");
    assert_eq!(resp.output.len(), 0);
}

#[test]
fn test_null_content_with_tool_calls() {
    // Pure tool call response — content is null, tool_calls are present
    let chat = ChatCompletionResponse {
        id: "chatcmpl-tools".into(),
        object: "chat.completion".into(),
        created: 1715550000,
        model: "deepseek-v4-pro".into(),
        choices: vec![ChatChoice {
            index: 0,
            message: ChatResponseMessage {
                role: Some("assistant".into()),
                content: None,
                reasoning_content: None,
                tool_calls: Some(vec![ChatToolCall {
                    id: "call_xyz".into(),
                    call_type: "function".into(),
                    function: ChatFunctionCall {
                        name: "search".into(),
                        arguments: r#"{"q":"test"}"#.into(),
                    },
                }]),
            },
            finish_reason: Some("tool_calls".into()),
        }],
        usage: None,
        error: None,
    };

    let resp = chat_to_responses(chat, "deepseek-v4-pro".into());
    assert_eq!(resp.output.len(), 1); // just the function_call, no message
    match &resp.output[0] {
        OutputItem::FunctionCall(fc) => {
            assert_eq!(fc.name, "search");
        }
        other => panic!("Expected FunctionCall, got {:?}", other),
    }
}

#[test]
fn test_content_filter_produces_refusal() {
    let chat = ChatCompletionResponse {
        id: "chatcmpl-cf2".into(),
        object: "chat.completion".into(),
        created: 1715550000,
        model: "deepseek-v4-pro".into(),
        choices: vec![ChatChoice {
            index: 0,
            message: ChatResponseMessage {
                role: Some("assistant".into()),
                content: None,
                reasoning_content: None,
                tool_calls: None,
            },
            finish_reason: Some("content_filter".into()),
        }],
        usage: None,
        error: None,
    };

    let resp = chat_to_responses(chat, "deepseek-v4-pro".into());
    match &resp.output[0] {
        OutputItem::Message(msg) => {
            assert_eq!(msg.status, "incomplete");
            match &msg.content[0] {
                OutputContentBlock::Refusal { refusal } => {
                    assert_eq!(refusal, "content_filter");
                }
                other => panic!("Expected Refusal, got {:?}", other),
            }
        }
        other => panic!("Expected Message, got {:?}", other),
    }
}

#[test]
fn test_incomplete_details_for_length() {
    let chat = ChatCompletionResponse {
        id: "chatcmpl-len2".into(),
        object: "chat.completion".into(),
        created: 1715550000,
        model: "deepseek-v4-pro".into(),
        choices: vec![ChatChoice {
            index: 0,
            message: ChatResponseMessage {
                role: Some("assistant".into()),
                content: Some("truncated...".into()),
                reasoning_content: None,
                tool_calls: None,
            },
            finish_reason: Some("length".into()),
        }],
        usage: None,
        error: None,
    };

    let resp = chat_to_responses(chat, "deepseek-v4-pro".into());
    let details = resp.incomplete_details.unwrap();
    assert_eq!(to_serde(&details)["reason"], "max_output_tokens");
}

#[test]
fn test_incomplete_details_for_content_filter() {
    let chat = ChatCompletionResponse {
        id: "chatcmpl-cf3".into(),
        object: "chat.completion".into(),
        created: 1715550000,
        model: "deepseek-v4-pro".into(),
        choices: vec![ChatChoice {
            index: 0,
            message: ChatResponseMessage {
                role: Some("assistant".into()),
                content: Some("filtered...".into()),
                reasoning_content: None,
                tool_calls: None,
            },
            finish_reason: Some("content_filter".into()),
        }],
        usage: None,
        error: None,
    };

    let resp = chat_to_responses(chat, "deepseek-v4-pro".into());
    let details = resp.incomplete_details.unwrap();
    assert_eq!(to_serde(&details)["reason"], "content_filter");
}

#[test]
fn test_no_incomplete_details_for_stop() {
    let chat = ChatCompletionResponse {
        id: "chatcmpl-stop".into(),
        object: "chat.completion".into(),
        created: 1715550000,
        model: "deepseek-v4-pro".into(),
        choices: vec![ChatChoice {
            index: 0,
            message: ChatResponseMessage {
                role: Some("assistant".into()),
                content: Some("done".into()),
                reasoning_content: None,
                tool_calls: None,
            },
            finish_reason: Some("stop".into()),
        }],
        usage: None,
        error: None,
    };

    let resp = chat_to_responses(chat, "deepseek-v4-pro".into());
    assert!(resp.incomplete_details.is_none());
}

#[test]
fn test_prompt_cache_tokens_mapped() {
    let chat = ChatCompletionResponse {
        id: "chatcmpl-cache".into(),
        object: "chat.completion".into(),
        created: 1715550000,
        model: "deepseek-v4-pro".into(),
        choices: vec![ChatChoice {
            index: 0,
            message: ChatResponseMessage {
                role: Some("assistant".into()),
                content: Some("cached response".into()),
                reasoning_content: None,
                tool_calls: None,
            },
            finish_reason: Some("stop".into()),
        }],
        usage: Some(ChatUsage {
            prompt_tokens: 100,
            completion_tokens: 30,
            total_tokens: 130,
            completion_tokens_details: None,
            prompt_tokens_details: Some(j(r#"{ "cached_tokens": 100 }"#)),
            prompt_cache_hit_tokens: None,
            prompt_cache_miss_tokens: None,
        }),
        error: None,
    };

    let resp = chat_to_responses(chat, "deepseek-v4-pro".into());
    let usage = resp.usage.unwrap();
    assert_eq!(usage.input_tokens_details.cached_tokens, 100);
    assert_eq!(usage.input_tokens, 100);
    assert_eq!(usage.output_tokens, 30);
}

#[test]
fn test_insufficient_system_resource() {
    let chat = ChatCompletionResponse {
        id: "chatcmpl-isr".into(),
        object: "chat.completion".into(),
        created: 1715550000,
        model: "deepseek-v4-pro".into(),
        choices: vec![ChatChoice {
            index: 0,
            message: ChatResponseMessage {
                role: Some("assistant".into()),
                content: Some("Partial...".into()),
                reasoning_content: None,
                tool_calls: None,
            },
            finish_reason: Some("insufficient_system_resource".into()),
        }],
        usage: None,
        error: None,
    };

    let resp = chat_to_responses(chat, "deepseek-v4-pro".into());
    // Status should be "incomplete" not "completed"
    match &resp.output[0] {
        OutputItem::Message(msg) => {
            assert_eq!(msg.status, "incomplete");
        }
        _ => panic!("Expected message"),
    }
    // insufficient_system_resource has no standard incomplete_details reason
    assert!(resp.incomplete_details.is_none());
}
