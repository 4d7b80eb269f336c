#![allow(dead_code)]
use responses_proxy::tools::ToolChoice;
use responses_proxy::value::{Json, Number};

fn from_serde(v: &serde_json::Value) -> Json {
    match v {
        serde_json::Value::Null => Json::Null,
        serde_json::Value::Bool(b) => Json::Bool(*b),
        serde_json::Value::Number(n) => Json::Number(match (n.as_u64(), n.as_i64()) {
            (Some(u), _) => Number::PosInt(u),
            (None, Some(i)) => Number::NegInt(i),
            (None, None) => Number::Float(n.to_string()),
        }),
        serde_json::Value::String(s) => Json::String(s.clone()),
        serde_json::Value::Array(a) => Json::Array(a.iter().map(from_serde).collect()),
        serde_json::Value::Object(o) => {
            Json::Object(o.iter().map(|(k, x)| (k.clone(), from_serde(x))).collect())
        }
    }
}

/// Reads a tool choice from its JSON text.
fn choice(text: &str) -> Option<ToolChoice> {
    ToolChoice::from_json(&from_serde(&serde_json::from_str(text).unwrap()))
}

#[test]
fn deserialize_tool_choice_string() {
    let json = r#""auto""#;
    let tc = choice(json).unwrap();
    assert!(matches!(tc, ToolChoice::String(s) if s == "auto"));
}

#[test]
fn deserialize_tool_choice_mode() {
    let json = r#"{"mode":"auto","tools":[]}"#;
    let tc = choice(json).unwrap();
    match tc {
        ToolChoice::Mode(m) => {
            assert_eq!(m.mode, "auto");
            assert!(m.tools.is_empty());
        }
        _ => panic!("expected Mode variant"),
    }
}

#[test]
fn deserialize_tool_choice_specific() {
    let json = r#"{"type":"function","name":"get_weather"}"#;
    let tc = choice(json).unwrap();
    match tc {
        ToolChoice::Specific(s) => {
            assert_eq!(s.tool_type, "function");
            assert_eq!(s.name, "get_weather");
        }
        _ => panic!("expected Specific variant"),
    }
}

#[test]
fn deserialize_tool_choice_mcp() {
    let json = r#"{"type":"mcp","server_label":"my_server","name":"my_tool"}"#;
    let tc = choice(json).unwrap();
    match tc {
        ToolChoice::Mcp(m) => {
            assert_eq!(m.tool_type, "mcp");
            assert_eq!(m.server_label, "my_server");
            assert_eq!(m.name.as_deref(), Some("my_tool"));
        }
        _ => panic!("expected Mcp variant"),
    }
}

#[test]
fn deserialize_tool_choice_apply_patch() {
    let json = r#"{"type":"apply_patch"}"#;
    let tc = choice(json).unwrap();
    assert!(matches!(tc, ToolChoice::ApplyPatch(_)));
}

#[test]
fn deserialize_tool_choice_shell() {
    let json = r#"{"type":"shell"}"#;
    let tc = choice(json).unwrap();
    assert!(matches!(tc, ToolChoice::Shell(_)));
}

#[test]
fn deserialize_tool_choice_types() {
    let json = r#"{"type":"web_search_preview"}"#;
    let tc = choice(json).unwrap();
    match tc {
        ToolChoice::Types(t) => {
            assert_eq!(t.tool_type, "web_search_preview");
        }
        _ => panic!("expected Types variant"),
    }
}

#[test]
fn tool_choice_mode_type_defaults_to_allowed_tools() {
    let tc = choice(r#"{"mode":"required","tools":[{"type":"function","name":"f"}]}"#).unwrap();
    match tc {
        ToolChoice::Mode(m) => {
            assert_eq!(m.type_, "allowed_tools");
            assert_eq!(m.tools.len(), 1);
            assert_eq!(m.tools[0].name.as_deref(), Some("f"));
            assert!(m.tools[0].server_label.is_none());
        }
        _ => panic!("expected Mode variant"),
    }
}

#[test]
fn tool_choice_shell_with_name_is_specific() {
    let tc = choice(r#"{"type":"shell","name":"bash"}"#).unwrap();
    assert!(matches!(tc, ToolChoice::Specific(s) if s.name == "bash"));
}

#[test]
fn tool_choice_mcp_without_label_is_types() {
    let tc = choice(r#"{"type":"mcp"}"#).unwrap();
    assert!(matches!(tc, ToolChoice::Types(t) if t.tool_type == "mcp"));
}

#[test]
fn tool_choice_rejects_other_shapes() {
    assert!(choice("42").is_none());
    assert!(choice(r#"{"name":"f"}"#).is_none());
    assert!(choice(r#"{"mode":"auto"}"#).is_none());
    assert!(choice(r#"{"type":"function","name":7}"#).is_none());
}
