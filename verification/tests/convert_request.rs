#![allow(dead_code)]
use responses_proxy::convert_request::responses_to_chat;
use responses_proxy::models::{
    CompactionItem, FunctionCallItem, FunctionCallOutputItem, FunctionCallOutputValue, Input,
    InputContentBlock, InputItem, InputMessage, InputReasoning, MessageRole, ResponsesRequest, Stop,
    ToolParam,
};
use responses_proxy::value::{Json, Number};

fn from_serde(v: &serde_json::Value) -> Json {
    match v {
        serde_json::Value::Null => Json::Null,
        serde_json::Value::Bool(b) => Json::Bool(*b),
        serde_json::Value::Number(n) => Json::Number(match (n.as_u64(), n.as_i64()) {
            (Some(u), _) => Number::PosInt(u),
            (None, Some(i)) => Number::NegInt(i),
            (None, None) => Number::Float(n.to_string()),
        }),
        serde_json::Value::String(s) => Json::String(s.clone()),
        serde_json::Value::Array(a) => Json::Array(a.iter().map(from_serde).collect()),
        serde_json::Value::Object(o) => {
            Json::Object(o.iter().map(|(k, x)| (k.clone(), from_serde(x))).collect())
        }
    }
}

fn to_serde(v: &Json) -> serde_json::Value {
    match v {
        Json::Null => serde_json::Value::Null,
        Json::Bool(b) => serde_json::Value::Bool(*b),
        Json::Number(Number::PosInt(u)) => serde_json::Value::from(*u),
        Json::Number(Number::NegInt(i)) => serde_json::Value::from(*i),
        Json::Number(Number::Float(t)) => serde_json::Value::Number(t.parse().unwrap()),
        Json::String(s) => serde_json::Value::String(s.clone()),
        Json::Array(a) => serde_json::Value::Array(a.iter().map(to_serde).collect()),
        Json::Object(f) => serde_json::Value::Object(
            f.iter().map(|(k, x)| (k.clone(), to_serde(x))).collect(),
        ),
    }
}

/// A JSON value written as text.
fn j(text: &str) -> Json {
    from_serde(&serde_json::from_str::<serde_json::Value>(text).unwrap())
}

/// Whether two JSON values are equal.
fn same(a: &Json, b: &Json) -> bool {
    to_serde(a) == to_serde(b)
}

fn make_text_content(text: &str) -> Vec<InputContentBlock> {
    vec![InputContentBlock::Text { text: text.into() }]
}

#[test]
fn test_string_input_becomes_user_message() {
    let req = ResponsesRequest {
        model: "deepseek-v4-pro".into(),
        input: Input::String("Hello world".into()),
        instructions: None,
        temperature: None,
        top_p: None,
        max_output_tokens: None,
        tools: None,
        tool_choice: None,
        stream: None,
        stop: None,
        top_logprobs: None,
        previous_response_id: None,
        store: None,
        metadata: None,
        reasoning: None,
        text: None,
    };

    let chat = responses_to_chat(req, &["function".into()], None);
    assert_eq!(chat.messages.len(), 1);
    assert_eq!(chat.messages[0].role, "user");
    assert_eq!(chat.messages[0].content.as_str().unwrap(), "Hello world");
    assert_eq!(chat.model, "deepseek-v4-pro");
}

#[test]
fn test_instructions_becomes_system_message() {
    let req = ResponsesRequest {
        model: "deepseek-v4-pro".into(),
        input: Input::String("What is Rust?".into()),
        instructions: Some("You are a helpful assistant.".into()),
        temperature: None,
        top_p: None,
        max_output_tokens: None,
        tools: None,
        tool_choice: None,
        stream: None,
        stop: None,
        top_logprobs: None,
        previous_response_id: None,
        store: None,
        metadata: None,
        reasoning: None,
        text: None,
    };

    let chat = responses_to_chat(req, &["function".into()], None);
    assert_eq!(chat.messages.len(), 2);
    assert_eq!(chat.messages[0].role, "system");
    assert_eq!(
        chat.messages[0].content.as_str().unwrap(),
        "You are a helpful assistant."
    );
    assert_eq!(chat.messages[1].role, "user");
}

#[test]
fn test_array_input_with_user_message() {
    let req = ResponsesRequest {
        model: "deepseek-v4-pro".into(),
        input: Input::from_items(vec![InputItem::Message(InputMessage {
            role: MessageRole::User,
            content: make_text_content("Hello"),
            status: None,
        })]),
        instructions: None,
        temperature: None,
        top_p: None,
        max_output_tokens: None,
        tools: None,
        tool_choice: None,
        stream: None,
        stop: None,
        top_logprobs: None,
        previous_response_id: None,
        store: None,
        metadata: None,
        reasoning: None,
        text: None,
    };

    let chat = responses_to_chat(req, &["function".into()], None);
    assert_eq!(chat.messages.len(), 1);
    assert_eq!(chat.messages[0].role, "user");
    assert_eq!(chat.messages[0].content.as_str().unwrap(), "Hello");
}

#[test]
fn test_array_input_with_system_and_user() {
    let req = ResponsesRequest {
        model: "deepseek-v4-pro".into(),
        input: Input::from_items(vec![
            InputItem::Message(InputMessage {
                role: MessageRole::System,
                content: make_text_content("You are a bot."),
                status: None,
            }),
            InputItem::Message(InputMessage {
                role: MessageRole::User,
                content: make_text_content("Hi"),
                status: None,
            }),
        ]),
        instructions: None,
        temperature: None,
        top_p: None,
        max_output_tokens: None,
        tools: None,
        tool_choice: None,
        stream: None,
        stop: None,
        top_logprobs: None,
        previous_response_id: None,
        store: None,
        metadata: None,
        reasoning: None,
        text: None,
    };

    let chat = responses_to_chat(req, &["function".into()], None);
    assert_eq!(chat.messages.len(), 2);
    assert_eq!(chat.messages[0].role, "system");
    assert_eq!(chat.messages[1].role, "user");
}

#[test]
fn test_instructions_merged_with_system_message() {
    let req = ResponsesRequest {
        model: "deepseek-v4-pro".into(),
        input: Input::from_items(vec![
            InputItem::Message(InputMessage {
                role: MessageRole::System,
                content: make_text_content("System instruction from input."),
                status: None,
            }),
            InputItem::Message(InputMessage {
                role: MessageRole::User,
                content: make_text_content("Hi"),
                status: None,
            }),
        ]),
        instructions: Some("Top-level instructions.".into()),
        temperature: None,
        top_p: None,
        max_output_tokens: None,
        tools: None,
        tool_choice: None,
        stream: None,
        stop: None,
        top_logprobs: None,
        previous_response_id: None,
        store: None,
        metadata: None,
        reasoning: None,
        text: None,
    };

    let chat = responses_to_chat(req, &["function".into()], None);
    assert_eq!(chat.messages.len(), 2);
    assert_eq!(chat.messages[0].role, "system");
    let content = chat.messages[0].content.as_str().unwrap();
    assert!(content.contains("Top-level instructions."));
    assert!(content.contains("System instruction from input."));
    // instructions come first, then the input system message
    assert!(content.starts_with("Top-level instructions."));
}

#[test]
fn test_function_call_item_to_assistant_message() {
    let req = ResponsesRequest {
        model: "deepseek-v4-pro".into(),
        input: Input::from_items(vec![InputItem::FunctionCall(FunctionCallItem {
            call_id: "call_abc".into(),
            name: "get_weather".into(),
            arguments: r#"{"city":"NYC"}"#.into(),
            id: None,
            status: None,
        })]),
        instructions: None,
        temperature: None,
        top_p: None,
        max_output_tokens: None,
        tools: None,
        tool_choice: None,
        stream: None,
        stop: None,
        top_logprobs: None,
        previous_response_id: None,
        store: None,
        metadata: None,
        reasoning: None,
        text: None,
    };

    let chat = responses_to_chat(req, &["function".into()], None);
    assert_eq!(chat.messages.len(), 1);
    assert_eq!(chat.messages[0].role, "assistant");
    let tool_calls = chat.messages[0].tool_calls.as_ref().unwrap();
    assert_eq!(tool_calls.len(), 1);
    assert_eq!(tool_calls[0].id, "call_abc");
    assert_eq!(tool_calls[0].function.name, "get_weather");
    assert_eq!(tool_calls[0].function.arguments, r#"{"city":"NYC"}"#);
}

#[test]
fn test_function_call_output_to_tool_message() {
    let req = ResponsesRequest {
        model: "deepseek-v4-pro".into(),
        input: Input::from_items(vec![InputItem::FunctionCallOutput(
            FunctionCallOutputItem {
                call_id: "call_abc".into(),
                output: FunctionCallOutputValue::String("72°F and sunny".into()),
                id: None,
                status: None,
            },
        )]),
        instructions: None,
        temperature: None,
        top_p: None,
        max_output_tokens: None,
        tools: None,
        tool_choice: None,
        stream: None,
        stop: None,
        top_logprobs: None,
        previous_response_id: None,
        store: None,
        metadata: None,
        reasoning: None,
        text: None,
    };

    let chat = responses_to_chat(req, &["function".into()], None);
    assert_eq!(chat.messages.len(), 1);
    assert_eq!(chat.messages[0].role, "tool");
    assert_eq!(chat.messages[0].content.as_str().unwrap(), "72°F and sunny");
    assert_eq!(
        chat.messages[0].tool_call_id.as_deref().unwrap(),
        "call_abc"
    );
}

#[test]
fn test_full_tool_conversation_roundtrip() {
    let req = ResponsesRequest {
        model: "deepseek-v4-pro".into(),
        input: Input::from_items(vec![
            InputItem::Message(InputMessage {
                role: MessageRole::User,
                content: make_text_content("What's the weather in NYC?"),
                status: None,
            }),
            InputItem::FunctionCall(FunctionCallItem {
                call_id: "call_1".into(),
                name: "get_weather".into(),
                arguments: r#"{"city":"New York"}"#.into(),
                id: None,
                status: None,
            }),
            InputItem::FunctionCallOutput(FunctionCallOutputItem {
                call_id: "call_1".into(),
                output: FunctionCallOutputValue::String("Sunny, 72°F".into()),
                id: None,
                status: None,
            }),
            InputItem::Message(InputMessage {
                role: MessageRole::Assistant,
                content: make_text_content("The weather in NYC is sunny and 72°F."),
                status: None,
            }),
        ]),
        instructions: None,
        temperature: None,
        top_p: None,
        max_output_tokens: None,
        tools: None,
        tool_choice: None,
        stream: None,
        stop: None,
        top_logprobs: None,
        previous_response_id: None,
        store: None,
        metadata: None,
        reasoning: None,
        text: None,
    };

    let chat = responses_to_chat(req, &["function".into()], None);
    assert_eq!(chat.messages.len(), 4);
    assert_eq!(chat.messages[0].role, "user");
    assert_eq!(chat.messages[1].role, "assistant");
    assert!(chat.messages[1].tool_calls.is_some());
    assert_eq!(chat.messages[2].role, "tool");
    assert_eq!(chat.messages[3].role, "assistant");
    assert_eq!(
        chat.messages[3].content.as_str().unwrap(),
        "The weather in NYC is sunny and 72°F."
    );
}

#[test]
fn test_tools_normalization_flat_to_nested() {
    let req = ResponsesRequest {
        model: "deepseek-v4-pro".into(),
        input: Input::String("Hi".into()),
        instructions: None,
        temperature: None,
        top_p: None,
        max_output_tokens: None,
        tools: Some(vec![ToolParam {
            tool_type: "function".into(),
            name: Some("get_weather".into()),
            description: Some("Get the weather".into()),
            parameters: Some(j(r#"{"type": "object", "properties": {}}"#)),
            strict: Some(true),
        }]),
        tool_choice: None,
        stream: None,
        stop: None,
        top_logprobs: None,
        previous_response_id: None,
        store: None,
        metadata: None,
        reasoning: None,
        text: None,
    };

    let chat = responses_to_chat(req, &["function".into()], None);
    let tools = chat.tools.unwrap();
    assert_eq!(tools.len(), 1);
    assert_eq!(tools[0].tool_type, "function");
    assert_eq!(tools[0].function.name, "get_weather");
    assert_eq!(
        tools[0].function.description.as_deref().unwrap(),
        "Get the weather"
    );
    assert!(tools[0].function.strict.unwrap());
}

#[test]
fn test_non_function_tools_are_filtered() {
    let req = ResponsesRequest {
        model: "deepseek-v4-pro".into(),
        input: Input::String("Hi".into()),
        instructions: None,
        temperature: None,
        top_p: None,
        max_output_tokens: None,
        tools: Some(vec![
            ToolParam {
                tool_type: "function".into(),
                name: Some("func1".into()),
                description: None,
                parameters: None,
                strict: None,
            },
            ToolParam {
                tool_type: "web_search_preview".into(),
                name: None,
                description: None,
                parameters: None,
                strict: None,
            },
        ]),
        tool_choice: None,
        stream: None,
        stop: None,
        top_logprobs: None,
        previous_response_id: None,
        store: None,
        metadata: None,
        reasoning: None,
        text: None,
    };

    let chat = responses_to_chat(req, &["function".into()], None);
    let tools = chat.tools.unwrap();
    assert_eq!(tools.len(), 1);
    assert_eq!(tools[0].function.name, "func1");
}

#[test]
fn test_temperature_and_top_p_passthrough() {
    let req = ResponsesRequest {
        model: "deepseek-v4-pro".into(),
        input: Input::String("Hi".into()),
        instructions: None,
        temperature: Some(Number::Float("0.7".into())),
        top_p: Some(Number::Float("0.9".into())),
        max_output_tokens: Some(2048),
        tools: None,
        tool_choice: None,
        stream: None,
        stop: None,
        top_logprobs: None,
        previous_response_id: None,
        store: None,
        metadata: None,
        reasoning: None,
        text: None,
    };

    let chat = responses_to_chat(req, &["function".into()], None);
    assert!(matches!(&chat.temperature, Some(Number::Float(t)) if t == "0.7"));
    assert!(matches!(&chat.top_p, Some(Number::Float(t)) if t == "0.9"));
    assert_eq!(chat.max_tokens, Some(2048));
}

#[test]
fn test_stop_passthrough() {
    let req = ResponsesRequest {
        model: "deepseek-v4-pro".into(),
        input: Input::String("Hi".into()),
        instructions: None,
        temperature: None,
        top_p: None,
        max_output_tokens: None,
        tools: None,
        tool_choice: None,
        stream: None,
        stop: Some(Stop::Multiple(vec!["END".into(), "STOP".into()])),
        top_logprobs: None,
        previous_response_id: None,
        store: None,
        metadata: None,
        reasoning: None,
        text: None,
    };

    let chat = responses_to_chat(req, &["function".into()], None);
    assert!(chat.stop.is_some());
}

#[test]
fn test_stream_flag_passthrough() {
    let req = ResponsesRequest {
        model: "deepseek-v4-pro".into(),
        input: Input::String("Hi".into()),
        instructions: None,
        temperature: None,
        top_p: None,
        max_output_tokens: None,
        tools: None,
        tool_choice: None,
        stream: Some(true),
        stop: None,
        top_logprobs: None,
        previous_response_id: None,
        store: None,
        metadata: None,
        reasoning: None,
        text: None,
    };

    let chat = responses_to_chat(req, &["function".into()], None);
    assert_eq!(chat.stream, Some(true));
}

#[test]
fn test_developer_role_maps_to_system() {
    let req = ResponsesRequest {
        model: "deepseek-v4-pro".into(),
        input: Input::from_items(vec![
            InputItem::Message(InputMessage {
                role: MessageRole::Developer,
                content: make_text_content("Dev instructions"),
                status: None,
            }),
            InputItem::Message(InputMessage {
                role: MessageRole::User,
                content: make_text_content("Hi"),
                status: None,
            }),
        ]),
        instructions: None,
        temperature: None,
        top_p: None,
        max_output_tokens: None,
        tools: None,
        tool_choice: None,
        stream: None,
        stop: None,
        top_logprobs: None,
        previous_response_id: None,
        store: None,
        metadata: None,
        reasoning: None,
        text: None,
    };

    let chat = responses_to_chat(req, &["function".into()], None);
    assert_eq!(chat.messages[0].role, "system");
    assert_eq!(
        chat.messages[0].content.as_str().unwrap(),
        "Dev instructions"
    );
}

#[test]
fn test_multiple_content_blocks_joined() {
    let req = ResponsesRequest {
        model: "deepseek-v4-pro".into(),
        input: Input::from_items(vec![InputItem::Message(InputMessage {
            role: MessageRole::User,
            content: vec![
                InputContentBlock::Text {
                    text: "Hello".into(),
                },
                InputContentBlock::Text {
                    text: "World".into(),
                },
            ],
            status: None,
        })]),
        instructions: None,
        temperature: None,
        top_p: None,
        max_output_tokens: None,
        tools: None,
        tool_choice: None,
        stream: None,
        stop: None,
        top_logprobs: None,
        previous_response_id: None,
        store: None,
        metadata: None,
        reasoning: None,
        text: None,
    };

    let chat = responses_to_chat(req, &["function".into()], None);
    assert_eq!(chat.messages[0].content.as_str().unwrap(), "Hello\nWorld");
}

#[test]
fn test_empty_input_array() {
    let req = ResponsesRequest {
        model: "deepseek-v4-pro".into(),
        input: Input::from_items(vec![]),
        instructions: None,
        temperature: None,
        top_p: None,
        max_output_tokens: None,
        tools: None,
        tool_choice: None,
        stream: None,
        stop: None,
        top_logprobs: None,
        previous_response_id: None,
        store: None,
        metadata: None,
        reasoning: None,
        text: None,
    };

    let chat = responses_to_chat(req, &["function".into()], None);
    assert_eq!(chat.messages.len(), 0);
}

#[test]
fn test_tool_choice_passthrough() {
    let req = ResponsesRequest {
        model: "deepseek-v4-pro".into(),
        input: Input::String("Hi".into()),
        instructions: None,
        temperature: None,
        top_p: None,
        max_output_tokens: None,
        tools: None,
        tool_choice: Some(j(r#""required""#)),
        stream: None,
        stop: None,
        top_logprobs: None,
        previous_response_id: None,
        store: None,
        metadata: None,
        reasoning: None,
        text: None,
    };

    let chat = responses_to_chat(req, &["function".into()], None);
    assert!(same(&chat.tool_choice.unwrap(), &j(r#""required""#)));
}

#[test]
fn test_function_call_output_array_extracts_text() {
    let req = ResponsesRequest {
        model: "deepseek-v4-pro".into(),
        input: Input::from_items(vec![InputItem::FunctionCallOutput(
            FunctionCallOutputItem {
                call_id: "call_1".into(),
                output: FunctionCallOutputValue::Array(vec![j(r#"{ "type": "input_text", "text": "Result text here" }"#)]),
                id: None,
                status: None,
            },
        )]),
        instructions: None,
        temperature: None,
        top_p: None,
        max_output_tokens: None,
        tools: None,
        tool_choice: None,
        stream: None,
        stop: None,
        top_logprobs: None,
        previous_response_id: None,
        store: None,
        metadata: None,
        reasoning: None,
        text: None,
    };

    let chat = responses_to_chat(req, &["function".into()], None);
    assert_eq!(chat.messages[0].role, "tool");
    assert_eq!(
        chat.messages[0].content.as_str().unwrap(),
        "Result text here"
    );
}

#[test]
fn test_image_and_file_blocks_filtered_out() {
    // image and file blocks should be silently ignored, only text extracted
    let req = ResponsesRequest {
        model: "deepseek-v4-pro".into(),
        input: Input::from_items(vec![InputItem::Message(InputMessage {
            role: MessageRole::User,
            content: vec![
                InputContentBlock::Text {
                    text: "Describe this image:".into(),
                },
                InputContentBlock::Image(j(r#"{ "type": "input_image", "image_url": "https://example.com/img.png" }"#)),
                InputContentBlock::File(j(r#"{ "type": "input_file", "file_id": "file-abc" }"#)),
            ],
            status: None,
        })]),
        instructions: None,
        temperature: None,
        top_p: None,
        max_output_tokens: None,
        tools: None,
        tool_choice: None,
        stream: None,
        stop: None,
        top_logprobs: None,
        previous_response_id: None,
        store: None,
        metadata: None,
        reasoning: None,
        text: None,
    };

    let chat = responses_to_chat(req, &["function".into()], None);
    // Should only have the text content, image/file silently dropped
    assert_eq!(
        chat.messages[0].content.as_str().unwrap(),
        "Describe this image:"
    );
}

#[test]
fn test_compaction_item_merged_into_system() {
    // Compaction before first user → merged into system message.
    let req = ResponsesRequest {
        model: "deepseek-v4-pro".into(),
        input: Input::from_items(vec![
            InputItem::Compaction(CompactionItem {
                id: "comp_test".into(),
                encrypted_content: "Summary of conversation".into(),
            }),
            InputItem::Message(InputMessage {
                role: MessageRole::User,
                content: make_text_content("Hello"),
                status: None,
            }),
        ]),
        instructions: None,
        temperature: None,
        top_p: None,
        max_output_tokens: None,
        tools: None,
        tool_choice: None,
        stream: None,
        stop: None,
        top_logprobs: None,
        previous_response_id: None,
        store: None,
        metadata: None,
        reasoning: None,
        text: None,
    };

    let chat = responses_to_chat(req, &["function".into()], None);
    assert_eq!(chat.messages.len(), 2);
    assert_eq!(chat.messages[0].role, "system");
    assert_eq!(
        chat.messages[0].content.as_str().unwrap(),
        "Summary of conversation"
    );
    assert_eq!(chat.messages[1].role, "user");
    assert_eq!(chat.messages[1].content.as_str().unwrap(), "Hello");
}

#[test]
fn test_unknown_content_block_ignored() {
    let req = ResponsesRequest {
        model: "deepseek-v4-pro".into(),
        input: Input::from_items(vec![InputItem::Message(InputMessage {
            role: MessageRole::User,
            content: vec![
                InputContentBlock::Text {
                    text: "Hello".into(),
                },
                InputContentBlock::Unknown(j(r#"{ "type": "some_future_block_type", "data": "ignored" }"#)),
                InputContentBlock::Text {
                    text: "World".into(),
                },
            ],
            status: None,
        })]),
        instructions: None,
        temperature: None,
        top_p: None,
        max_output_tokens: None,
        tools: None,
        tool_choice: None,
        stream: None,
        stop: None,
        top_logprobs: None,
        previous_response_id: None,
        store: None,
        metadata: None,
        reasoning: None,
        text: None,
    };

    let chat = responses_to_chat(req, &["function".into()], None);
    assert_eq!(chat.messages[0].content.as_str().unwrap(), "Hello\nWorld");
}

#[test]
fn test_stop_single_string() {
    let req = ResponsesRequest {
        model: "deepseek-v4-pro".into(),
        input: Input::String("Hi".into()),
        instructions: None,
        temperature: None,
        top_p: None,
        max_output_tokens: None,
        tools: None,
        tool_choice: None,
        stream: None,
        stop: Some(Stop::Single("END".into())),
        top_logprobs: None,
        previous_response_id: None,
        store: None,
        metadata: None,
        reasoning: None,
        text: None,
    };

    let chat = responses_to_chat(req, &["function".into()], None);
    assert!(chat.stop.is_some());
}

#[test]
fn test_top_logprobs_passthrough() {
    let req = ResponsesRequest {
        model: "deepseek-v4-pro".into(),
        input: Input::String("Hi".into()),
        instructions: None,
        temperature: None,
        top_p: None,
        max_output_tokens: None,
        tools: None,
        tool_choice: None,
        stream: None,
        stop: None,
        top_logprobs: Some(5),
        previous_response_id: None,
        store: None,
        metadata: None,
        reasoning: None,
        text: None,
    };

    let chat = responses_to_chat(req, &["function".into()], None);
    assert_eq!(chat.top_logprobs, Some(5));
}

#[test]
fn test_empty_instructions_ignored() {
    let req = ResponsesRequest {
        model: "deepseek-v4-pro".into(),
        input: Input::String("Hi".into()),
        instructions: Some("".into()),
        temperature: None,
        top_p: None,
        max_output_tokens: None,
        tools: None,
        tool_choice: None,
        stream: None,
        stop: None,
        top_logprobs: None,
        previous_response_id: None,
        store: None,
        metadata: None,
        reasoning: None,
        text: None,
    };

    let chat = responses_to_chat(req, &["function".into()], None);
    // Empty instructions should not produce a system message
    assert_eq!(chat.messages.len(), 1);
    assert_eq!(chat.messages[0].role, "user");
}

#[test]
fn test_reasoning_maps_to_thinking() {
    let req = ResponsesRequest {
        model: "deepseek-v4-pro".into(),
        input: Input::String("Solve complex math".into()),
        instructions: None,
        temperature: None,
        top_p: None,
        max_output_tokens: None,
        tools: None,
        tool_choice: None,
        stream: None,
        stop: None,
        top_logprobs: None,
        previous_response_id: None,
        store: None,
        metadata: None,
        reasoning: Some(j(r#"{"effort": "high"}"#)),
        text: None,
    };

    let chat = responses_to_chat(req, &["function".into()], None);
    assert_eq!(chat.thinking.as_ref().unwrap().thinking_type, "enabled");
    assert_eq!(chat.reasoning_effort.as_deref(), Some("high"));
}

#[test]
fn test_reasoning_xhigh_maps_to_max() {
    let req = ResponsesRequest {
        model: "deepseek-v4-pro".into(),
        input: Input::String("Hard problem".into()),
        instructions: None,
        temperature: None,
        top_p: None,
        max_output_tokens: None,
        tools: None,
        tool_choice: None,
        stream: None,
        stop: None,
        top_logprobs: None,
        previous_response_id: None,
        store: None,
        metadata: None,
        reasoning: Some(j(r#"{"effort": "xhigh"}"#)),
        text: None,
    };

    let chat = responses_to_chat(req, &["function".into()], None);
    assert_eq!(chat.reasoning_effort.as_deref(), Some("max"));
}

#[test]
fn test_reasoning_low_maps_to_high() {
    let req = ResponsesRequest {
        model: "deepseek-v4-pro".into(),
        input: Input::String("Easy".into()),
        instructions: None,
        temperature: None,
        top_p: None,
        max_output_tokens: None,
        tools: None,
        tool_choice: None,
        stream: None,
        stop: None,
        top_logprobs: None,
        previous_response_id: None,
        store: None,
        metadata: None,
        reasoning: Some(j(r#"{"effort": "low"}"#)),
        text: None,
    };

    let chat = responses_to_chat(req, &["function".into()], None);
    assert_eq!(chat.reasoning_effort.as_deref(), Some("high"));
}

#[test]
fn test_no_reasoning_no_thinking() {
    let req = ResponsesRequest {
        model: "deepseek-v4-pro".into(),
        input: Input::String("Hi".into()),
        instructions: None,
        temperature: None,
        top_p: None,
        max_output_tokens: None,
        tools: None,
        tool_choice: None,
        stream: None,
        stop: None,
        top_logprobs: None,
        previous_response_id: None,
        store: None,
        metadata: None,
        reasoning: None,
        text: None,
    };

    let chat = responses_to_chat(req, &["function".into()], None);
    assert!(chat.thinking.is_none());
}

#[test]
fn test_reasoning_none_disables_thinking() {
    let req = ResponsesRequest {
        model: "deepseek-v4-pro".into(),
        input: Input::String("Hi".into()),
        instructions: None,
        temperature: None,
        top_p: None,
        max_output_tokens: None,
        tools: None,
        tool_choice: None,
        stream: None,
        stop: None,
        top_logprobs: None,
        previous_response_id: None,
        store: None,
        metadata: None,
        reasoning: Some(j(r#"{"effort": "none"}"#)),
        text: None,
    };

    let chat = responses_to_chat(req, &["function".into()], None);
    assert!(
        chat.thinking.is_none(),
        "none effort should disable thinking"
    );
}

#[test]
fn test_reasoning_minimal_maps_to_high() {
    let req = ResponsesRequest {
        model: "deepseek-v4-pro".into(),
        input: Input::String("Hi".into()),
        instructions: None,
        temperature: None,
        top_p: None,
        max_output_tokens: None,
        tools: None,
        tool_choice: None,
        stream: None,
        stop: None,
        top_logprobs: None,
        previous_response_id: None,
        store: None,
        metadata: None,
        reasoning: Some(j(r#"{"effort": "minimal"}"#)),
        text: None,
    };

    let chat = responses_to_chat(req, &["function".into()], None);
    assert_eq!(chat.reasoning_effort.as_deref(), Some("high"));
}

#[test]
fn test_thinking_mode_skips_logprobs() {
    // DeepSeek errors if logprobs/top_logprobs are sent with thinking enabled.
    let req = ResponsesRequest {
        model: "deepseek-v4-pro".into(),
        input: Input::String("Hi".into()),
        instructions: None,
        temperature: None,
        top_p: None,
        max_output_tokens: None,
        tools: None,
        tool_choice: None,
        stream: None,
        stop: None,
        top_logprobs: Some(5),
        previous_response_id: None,
        store: None,
        metadata: None,
        reasoning: Some(j(r#"{"effort": "high"}"#)),
        text: None,
    };

    let chat = responses_to_chat(req, &["function".into()], None);
    assert!(chat.thinking.is_some(), "thinking should be enabled");
    assert_eq!(
        chat.logprobs, None,
        "logprobs must be None in thinking mode"
    );
    assert_eq!(
        chat.top_logprobs, None,
        "top_logprobs must be None in thinking mode"
    );
}

#[test]
fn test_developer_role_merges_with_instructions() {
    // instructions + developer role in input should merge (same as system merge)
    let req = ResponsesRequest {
        model: "deepseek-v4-pro".into(),
        input: Input::from_items(vec![
            InputItem::Message(InputMessage {
                role: MessageRole::Developer,
                content: make_text_content("Developer instruction."),
                status: None,
            }),
            InputItem::Message(InputMessage {
                role: MessageRole::User,
                content: make_text_content("Hi"),
                status: None,
            }),
        ]),
        instructions: Some("Top-level instructions.".into()),
        temperature: None,
        top_p: None,
        max_output_tokens: None,
        tools: None,
        tool_choice: None,
        stream: None,
        stop: None,
        top_logprobs: None,
        previous_response_id: None,
        store: None,
        metadata: None,
        reasoning: None,
        text: None,
    };

    let chat = responses_to_chat(req, &["function".into()], None);
    assert_eq!(chat.messages.len(), 2);
    assert_eq!(chat.messages[0].role, "system");
    let content = chat.messages[0].content.as_str().unwrap();
    assert!(content.contains("Top-level instructions."));
    assert!(content.contains("Developer instruction."));
}

#[test]
fn test_reasoning_attaches_to_function_call() {
    let req = ResponsesRequest {
        model: "deepseek-v4-pro".into(),
        input: Input::from_items(vec![
            InputItem::Message(InputMessage {
                role: MessageRole::User,
                content: make_text_content("What's the weather?"),
                status: None,
            }),
            InputItem::Reasoning(InputReasoning {
                id: "rs_1".into(),
                summary: vec![j(r#"{ "type": "summary_text", "text": "Let me check the weather API." }"#)],
                content: vec![],
            }),
            InputItem::FunctionCall(FunctionCallItem {
                call_id: "call_1".into(),
                name: "get_weather".into(),
                arguments: r#"{"city":"NYC"}"#.into(),
                id: None,
                status: None,
            }),
        ]),
        instructions: None,
        temperature: None,
        top_p: None,
        max_output_tokens: None,
        tools: None,
        tool_choice: None,
        stream: None,
        stop: None,
        top_logprobs: None,
        previous_response_id: None,
        store: None,
        metadata: None,
        reasoning: None,
        text: None,
    };

    let chat = responses_to_chat(req, &["function".into()], None);
    assert_eq!(chat.messages.len(), 2);
    // The function_call becomes an assistant message with reasoning_content
    assert_eq!(chat.messages[1].role, "assistant");
    assert_eq!(
        chat.messages[1].reasoning_content.as_deref(),
        Some("Let me check the weather API.")
    );
}

#[test]
fn test_reasoning_attaches_to_assistant_message() {
    let req = ResponsesRequest {
        model: "deepseek-v4-pro".into(),
        input: Input::from_items(vec![
            InputItem::Message(InputMessage {
                role: MessageRole::User,
                content: make_text_content("Hi"),
                status: None,
            }),
            InputItem::Reasoning(InputReasoning {
                id: "rs_1".into(),
                summary: vec![j(r#"{ "type": "summary_text", "text": "The user is greeting." }"#)],
                content: vec![],
            }),
            InputItem::Message(InputMessage {
                role: MessageRole::Assistant,
                content: make_text_content("Hello!"),
                status: None,
            }),
        ]),
        instructions: None,
        temperature: None,
        top_p: None,
        max_output_tokens: None,
        tools: None,
        tool_choice: None,
        stream: None,
        stop: None,
        top_logprobs: None,
        previous_response_id: None,
        store: None,
        metadata: None,
        reasoning: None,
        text: None,
    };

    let chat = responses_to_chat(req, &["function".into()], None);
    assert_eq!(chat.messages.len(), 2);
    assert_eq!(chat.messages[1].role, "assistant");
    assert_eq!(
        chat.messages[1].reasoning_content.as_deref(),
        Some("The user is greeting.")
    );
}

#[test]
fn test_reasoning_not_attached_to_non_assistant() {
    // reasoning should NOT attach to user/system messages, only to assistant ones
    let req = ResponsesRequest {
        model: "deepseek-v4-pro".into(),
        input: Input::from_items(vec![
            InputItem::Reasoning(InputReasoning {
                id: "rs_1".into(),
                summary: vec![j(r#"{ "type": "summary_text", "text": "This should not go on user msg." }"#)],
                content: vec![],
            }),
            InputItem::Message(InputMessage {
                role: MessageRole::User,
                content: make_text_content("Hello"),
                status: None,
            }),
        ]),
        instructions: None,
        temperature: None,
        top_p: None,
        max_output_tokens: None,
        tools: None,
        tool_choice: None,
        stream: None,
        stop: None,
        top_logprobs: None,
        previous_response_id: None,
        store: None,
        metadata: None,
        reasoning: None,
        text: None,
    };

    let chat = responses_to_chat(req, &["function".into()], None);
    assert_eq!(chat.messages.len(), 1);
    assert_eq!(chat.messages[0].role, "user");
    assert_eq!(chat.messages[0].reasoning_content, None);
}

#[test]
fn test_text_format_maps_to_response_format() {
    let req = ResponsesRequest {
        model: "deepseek-v4-pro".into(),
        input: Input::String("Output JSON please.".into()),
        instructions: None,
        temperature: None,
        top_p: None,
        max_output_tokens: None,
        tools: None,
        tool_choice: None,
        stream: None,
        stop: None,
        top_logprobs: None,
        previous_response_id: None,
        store: None,
        metadata: None,
        reasoning: None,
        text: Some(j(r#"{"format": {"type": "json_object"}}"#)),
    };

    let chat = responses_to_chat(req, &["function".into()], None);
    assert!(same(
        &chat.response_format.unwrap(),
        &j(r#"{"type": "json_object"}"#)
    ));
}

#[test]
fn test_no_text_no_response_format() {
    let req = ResponsesRequest {
        model: "deepseek-v4-pro".into(),
        input: Input::String("Hi".into()),
        instructions: None,
        temperature: None,
        top_p: None,
        max_output_tokens: None,
        tools: None,
        tool_choice: None,
        stream: None,
        stop: None,
        top_logprobs: None,
        previous_response_id: None,
        store: None,
        metadata: None,
        reasoning: None,
        text: None,
    };

    let chat = responses_to_chat(req, &["function".into()], None);
    assert!(chat.response_format.is_none());
}
