#![allow(dead_code)]
use responses_proxy::rewrite::{apply_rewrite, ReplaceRule, RewriteCondition, RewriteConfig, RewriteStep};
use responses_proxy::value::{Json, Number};

fn from_serde(v: &serde_json::Value) -> Json {
    match v {
        serde_json::Value::Null => Json::Null,
        serde_json::Value::Bool(b) => Json::Bool(*b),
        serde_json::Value::Number(n) => Json::Number(match (n.as_u64(), n.as_i64()) {
            (Some(u), _) => Number::PosInt(u),
            (None, Some(i)) => Number::NegInt(i),
            (None, None) => Number::Float(n.to_string()),
        }),
        serde_json::Value::String(s) => Json::String(s.clone()),
        serde_json::Value::Array(a) => Json::Array(a.iter().map(from_serde).collect()),
        serde_json::Value::Object(o) => {
            Json::Object(o.iter().map(|(k, x)| (k.clone(), from_serde(x))).collect())
        }
    }
}

fn to_serde(v: &Json) -> serde_json::Value {
    match v {
        Json::Null => serde_json::Value::Null,
        Json::Bool(b) => serde_json::Value::Bool(*b),
        Json::Number(Number::PosInt(u)) => serde_json::Value::from(*u),
        Json::Number(Number::NegInt(i)) => serde_json::Value::from(*i),
        Json::Number(Number::Float(t)) => serde_json::Value::Number(t.parse().unwrap()),
        Json::String(s) => serde_json::Value::String(s.clone()),
        Json::Array(a) => serde_json::Value::Array(a.iter().map(to_serde).collect()),
        Json::Object(f) => serde_json::Value::Object(
            f.iter().map(|(k, x)| (k.clone(), to_serde(x))).collect(),
        ),
    }
}

/// A JSON value written as text.
fn j(text: &str) -> Json {
    from_serde(&serde_json::from_str::<serde_json::Value>(text).unwrap())
}

/// Whether two JSON values are equal.
fn same(a: &Json, b: &Json) -> bool {
    to_serde(a) == to_serde(b)
}

/// A `serde_json` value written as text.
fn sv(text: &str) -> serde_json::Value {
    serde_json::from_str(text).unwrap()
}

fn replace_value(when: Json, value: Json) -> ReplaceRule {
    ReplaceRule {
        condition: RewriteCondition::from_value(when).unwrap(),
        set: Some(value),
        with: Vec::new(),
    }
}

fn replace_paths(when: Json, paths: Vec<(&str, Json)>) -> ReplaceRule {
    ReplaceRule {
        condition: RewriteCondition::from_value(when).unwrap(),
        set: None,
        with: paths
            .into_iter()
            .map(|(path, value)| (path.to_string(), value))
            .collect(),
    }
}

#[test]
fn moves_and_sets_fields() {
    let mut body = j(r#"{ "max_completion_tokens": 64, "parallel_tool_calls": true, "service_tier": "auto", "response_format": {"type": "json_schema"}, "provider_options": {"cache": false} }"#);
    let rewrite = RewriteConfig {
        steps: vec![
            RewriteStep::Rename(vec![("max_completion_tokens".into(), "max_tokens".into())]),
            RewriteStep::Remove(vec!["parallel_tool_calls".into()]),
            RewriteStep::Replace(vec![
                (
                    "service_tier".into(),
                    vec![
                        replace_value(j(r#""auto""#), j(r#""priority""#)),
                        replace_value(j(r#""priority""#), j(r#""default""#)),
                    ],
                ),
                (
                    "response_format".into(),
                    vec![replace_value(
                        j(r#"{"type": "json_schema"}"#),
                        j(r#"{"type": "json_object"}"#),
                    )],
                ),
            ]),
            RewriteStep::Reset(vec![("provider_options.cache".into(), j(r#"true"#))]),
        ],
    };
    apply_rewrite(&mut body, &rewrite).unwrap();
    let body = to_serde(&body);

    assert_eq!(body["max_tokens"], 64);
    assert!(body.get("max_completion_tokens").is_none());
    assert!(body.get("parallel_tool_calls").is_none());
    assert_eq!(body["service_tier"], "default");
    assert_eq!(body["response_format"], sv(r#"{"type": "json_object"}"#));
    assert_eq!(body["provider_options"]["cache"], true);
}

#[test]
fn reset_only_updates_existing_paths() {
    let mut body = j(r#"{"existing": "old"}"#);
    let rewrite = RewriteConfig {
        steps: vec![RewriteStep::Reset(vec![
            ("existing".into(), j(r#""new""#)),
            ("missing".into(), j(r#""created""#)),
        ])],
    };

    apply_rewrite(&mut body, &rewrite).unwrap();
    let body = to_serde(&body);

    assert_eq!(body["existing"], "new");
    assert!(body.get("missing").is_none());
}

#[test]
fn follows_configured_step_order() {
    let mut body = j(r#"{"a": "old"}"#);
    let rewrite = RewriteConfig {
        steps: vec![
            RewriteStep::Reset(vec![("a".into(), j(r#""configured""#))]),
            RewriteStep::Rename(vec![("a".into(), "b".into())]),
            RewriteStep::Replace(vec![(
                "b".into(),
                vec![replace_value(j(r#""configured""#), j(r#""replaced""#))],
            )]),
        ],
    };

    apply_rewrite(&mut body, &rewrite).unwrap();
    let body = to_serde(&body);

    assert!(body.get("a").is_none());
    assert_eq!(body["b"], "replaced");
}

#[test]
fn supports_plain_dotted_and_json_pointer_paths() {
    let mut body = j(r#"{ "model": "local-model", "reasoning": {"effort": "high"}, "choices": [ { "finish_reason": "length", "message": {"content": "hello"} } ], "response_format": {"type": "json_schema"}, "tools": [ {"function": {"name": "old_tool"}} ] }"#);
    let rewrite = RewriteConfig {
        steps: vec![
            RewriteStep::Reset(vec![("model".into(), j(r#""provider-model""#))]),
            RewriteStep::Replace(vec![
                (
                    "reasoning.effort".into(),
                    vec![replace_value(j(r#""high""#), j(r#""medium""#))],
                ),
                (
                    "choices.0.finish_reason".into(),
                    vec![replace_value(j(r#""length""#), j(r#""stop""#))],
                ),
            ]),
            RewriteStep::Rename(vec![(
                "/response_format/type".into(),
                "/text/format/type".into(),
            )]),
            RewriteStep::Reset(vec![("/tools/0/function/name".into(), j(r#""new_tool""#))]),
        ],
    };

    apply_rewrite(&mut body, &rewrite).unwrap();
    let body = to_serde(&body);

    assert_eq!(body["model"], "provider-model");
    assert_eq!(body["reasoning"]["effort"], "medium");
    assert_eq!(body["choices"][0]["finish_reason"], "stop");
    assert!(body["response_format"].as_object().unwrap().is_empty());
    assert_eq!(body["text"]["format"]["type"], "json_schema");
    assert_eq!(body["tools"][0]["function"]["name"], "new_tool");
}

#[test]
fn json_pointer_paths_support_escaping_and_array_remove() {
    let mut body = j(r#"{ "a/b": {"~key": "old"}, "items": ["first", "second", "third"] }"#);
    let rewrite = RewriteConfig {
        steps: vec![
            RewriteStep::Reset(vec![("/a~1b/~0key".into(), j(r#""new""#))]),
            RewriteStep::Remove(vec!["/items/1".into()]),
        ],
    };

    apply_rewrite(&mut body, &rewrite).unwrap();
    let body = to_serde(&body);

    assert_eq!(body["a/b"]["~key"], "new");
    assert_eq!(body["items"], sv(r#"["first", "third"]"#));
}

#[test]
fn replace_value_can_be_a_map() {
    let mut body = j(r#"{"provider_options": "enabled"}"#);
    let rewrite = RewriteConfig {
        steps: vec![RewriteStep::Replace(vec![(
            "provider_options".into(),
            vec![replace_value(
                j(r#""enabled""#),
                j(r#"{ "cache": true, "priority": "high" }"#),
            )],
        )])],
    };

    apply_rewrite(&mut body, &rewrite).unwrap();
    let body = to_serde(&body);

    assert_eq!(body["provider_options"]["cache"], true);
    assert_eq!(body["provider_options"]["priority"], "high");
}

#[test]
fn replace_can_write_to_an_explicit_path() {
    let mut body = j(r#"{ "reasoning_effort": "high", "provider_options": {} }"#);
    let rewrite = RewriteConfig {
        steps: vec![RewriteStep::Replace(vec![(
            "reasoning_effort".into(),
            vec![replace_paths(
                j(r#""high""#),
                vec![(
                    "provider_options.reasoning",
                    j(r#"{ "enabled": true, "budget": 4096 }"#),
                )],
            )],
        )])],
    };

    apply_rewrite(&mut body, &rewrite).unwrap();
    let body = to_serde(&body);

    assert_eq!(body["reasoning_effort"], "high");
    assert_eq!(body["provider_options"]["reasoning"]["enabled"], true);
    assert_eq!(body["provider_options"]["reasoning"]["budget"], 4096);
}

#[test]
fn replace_can_write_value_and_multiple_paths_from_one_match() {
    let mut body = j(r#"{ "reasoning_effort": "high", "thinking": {"type": "disabled"}, "provider_options": {} }"#);
    let rewrite = RewriteConfig {
        steps: vec![RewriteStep::Replace(vec![(
            "reasoning_effort".into(),
            vec![ReplaceRule {
                condition: RewriteCondition::from_value(j(r#""^high$""#)).unwrap(),
                set: Some(j(r#""max""#)),
                with: vec![
                    ("thinking".into(), j(r#"{"type": "enable"}"#)),
                    ("provider_options.reasoning".into(), j(r#"{"budget": 4096}"#)),
                ],
            }],
        )])],
    };

    apply_rewrite(&mut body, &rewrite).unwrap();
    let body = to_serde(&body);

    assert_eq!(body["reasoning_effort"], "max");
    assert_eq!(body["thinking"], sv(r#"{"type": "enable"}"#));
    assert_eq!(
        body["provider_options"]["reasoning"],
        sv(r#"{"budget": 4096}"#)
    );
}

#[test]
fn replace_can_write_to_root_with_empty_path() {
    let mut body = j(r#"{"mode": "legacy", "old": true}"#);
    let rewrite = RewriteConfig {
        steps: vec![RewriteStep::Replace(vec![(
            "mode".into(),
            vec![replace_paths(
                j(r#""legacy""#),
                vec![(
                    "",
                    j(r#"{ "mode": "modern", "new": true }"#),
                )],
            )],
        )])],
    };

    apply_rewrite(&mut body, &rewrite).unwrap();
    let body = to_serde(&body);

    assert_eq!(body, sv(r#"{"mode": "modern", "new": true}"#));
}

#[test]
fn replace_if_supports_regex_values() {
    let mut body = j(r#"{"reasoning_effort": "medium"}"#);
    let rewrite = RewriteConfig {
        steps: vec![RewriteStep::Replace(vec![(
            "reasoning_effort".into(),
            vec![replace_value(j(r#""minimal|low|medium""#), j(r#""high""#))],
        )])],
    };

    apply_rewrite(&mut body, &rewrite).unwrap();
    let body = to_serde(&body);

    assert_eq!(body["reasoning_effort"], "high");
}

#[test]
fn replace_if_regex_can_be_anchored() {
    let mut body = j(r#"{"reasoning_effort": "xhigh"}"#);
    let rewrite = RewriteConfig {
        steps: vec![RewriteStep::Replace(vec![(
            "reasoning_effort".into(),
            vec![replace_value(j(r#""^(high|max|xhigh)$""#), j(r#""max""#))],
        )])],
    };

    apply_rewrite(&mut body, &rewrite).unwrap();
    let body = to_serde(&body);

    assert_eq!(body["reasoning_effort"], "max");
}

#[test]
fn wildcard_replace_messages_role() {
    let mut body = j(r#"{ "messages": [ {"role": "developer", "content": "a"}, {"role": "user", "content": "b"}, {"role": "developer", "content": "c"} ] }"#);
    let rewrite = RewriteConfig {
        steps: vec![RewriteStep::Replace(vec![(
            "messages.*.role".into(),
            vec![replace_value(j(r#""developer""#), j(r#""system""#))],
        )])],
    };

    apply_rewrite(&mut body, &rewrite).unwrap();
    let body = to_serde(&body);

    assert_eq!(body["messages"][0]["role"], "system");
    assert_eq!(body["messages"][1]["role"], "user"); // unchanged
    assert_eq!(body["messages"][2]["role"], "system");
}

#[test]
fn wildcard_remove_array_elements() {
    let mut body = j(r#"{ "messages": [ {"role": "developer", "content": "a"}, {"role": "user", "content": "b"}, {"role": "developer", "content": "c"} ] }"#);
    let rewrite = RewriteConfig {
        steps: vec![RewriteStep::Remove(vec!["messages.*.role".into()])],
    };

    apply_rewrite(&mut body, &rewrite).unwrap();
    let body = to_serde(&body);

    assert!(body["messages"][0].get("role").is_none());
    assert!(body["messages"][1].get("role").is_none());
    assert!(body["messages"][2].get("role").is_none());
}

#[test]
fn wildcard_reset_existing_paths() {
    let mut body = j(r#"{ "messages": [ {"role": "developer", "content": "a"}, {"role": "user", "content": "b"} ] }"#);
    let rewrite = RewriteConfig {
        steps: vec![RewriteStep::Reset(vec![(
            "messages.*.role".into(),
            j(r#""system""#),
        )])],
    };

    apply_rewrite(&mut body, &rewrite).unwrap();
    let body = to_serde(&body);

    assert_eq!(body["messages"][0]["role"], "system");
    assert_eq!(body["messages"][1]["role"], "system");
}

#[test]
fn wildcard_nested_arrays() {
    let mut body = j(r#"{ "choices": [ {"message": {"role": "assistant", "tool_calls": [ {"type": "function"}, {"type": "custom"} ]}} ] }"#);
    let rewrite = RewriteConfig {
        steps: vec![RewriteStep::Replace(vec![(
            "choices.*.message.tool_calls.*.type".into(),
            vec![replace_value(j(r#""custom""#), j(r#""function""#))],
        )])],
    };

    apply_rewrite(&mut body, &rewrite).unwrap();
    let body = to_serde(&body);

    assert_eq!(
        body["choices"][0]["message"]["tool_calls"][0]["type"],
        "function"
    );
    assert_eq!(
        body["choices"][0]["message"]["tool_calls"][1]["type"],
        "function" // was "custom", now "function"
    );
}

#[test]
fn wildcard_no_match_on_non_array() {
    let mut body = j(r#"{"messages": "not-an-array"}"#);
    let rewrite = RewriteConfig {
        steps: vec![RewriteStep::Replace(vec![(
            "messages.*.role".into(),
            vec![replace_value(j(r#""developer""#), j(r#""system""#))],
        )])],
    };

    apply_rewrite(&mut body, &rewrite).unwrap();
    let body = to_serde(&body);

    // unchanged — * expands to nothing on non-array
    assert_eq!(body, sv(r#"{"messages": "not-an-array"}"#));
}

fn small_chat_request() -> responses_proxy::models::ChatCompletionRequest {
    responses_proxy::models::ChatCompletionRequest {
        model: "m".into(),
        messages: Vec::new(),
        temperature: None,
        top_p: None,
        max_tokens: Some(64),
        tools: None,
        tool_choice: None,
        stream: None,
        response_format: None,
        stop: None,
        logprobs: None,
        top_logprobs: None,
        reasoning_effort: None,
        thinking: None,
    }
}

#[test]
fn outgoing_chat_bodies_are_rewritten_by_the_provider_rules() {
    let req = small_chat_request();
    let plain = responses_proxy::wire::build_typed_chat_request(&req, &RewriteConfig { steps: Vec::new() }).unwrap();
    assert!(same(&plain, &req.to_json()));
    assert_eq!(to_serde(&plain)["max_tokens"], sv("64"));
    let rules = RewriteConfig {
        steps: vec![RewriteStep::Rename(vec![("max_tokens".into(), "max_completion_tokens".into())])],
    };
    let body = responses_proxy::wire::build_typed_chat_request(&req, &rules).unwrap();
    assert_eq!(to_serde(&body)["max_completion_tokens"], sv("64"));
    assert!(to_serde(&body).get("max_tokens").is_none());
    let failing = RewriteConfig {
        steps: vec![RewriteStep::Rename(vec![("model".into(), "/messages/3".into())])],
    };
    assert_eq!(
        responses_proxy::wire::build_typed_chat_request(&req, &failing).unwrap_err(),
        "rewrite array index out of bounds: 3"
    );
}
