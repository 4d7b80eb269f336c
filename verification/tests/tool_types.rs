#![allow(dead_code)]
use responses_proxy::tool_parts::{
    CodeInterpreterContainer, CustomToolFormat, Environment, FileSearchFilters, McpAllowedTools,
    McpRequireApproval, NamespaceToolItem, NetworkPolicy, Skill,
};
use responses_proxy::tool_types::{FunctionToolRequest, Tool, ToolRequest};
use responses_proxy::value::{Json, Number};

fn from_serde(v: &serde_json::Value) -> Json {
    match v {
        serde_json::Value::Null => Json::Null,
        serde_json::Value::Bool(b) => Json::Bool(*b),
        serde_json::Value::Number(n) => Json::Number(match (n.as_u64(), n.as_i64()) {
            (Some(u), _) => Number::PosInt(u),
            (None, Some(i)) => Number::NegInt(i),
            (None, None) => Number::Float(n.to_string()),
        }),
        serde_json::Value::String(s) => Json::String(s.clone()),
        serde_json::Value::Array(a) => Json::Array(a.iter().map(from_serde).collect()),
        serde_json::Value::Object(o) => {
            Json::Object(o.iter().map(|(k, x)| (k.clone(), from_serde(x))).collect())
        }
    }
}

fn j(text: &str) -> Json {
    from_serde(&serde_json::from_str(text).unwrap())
}

fn tool(text: &str) -> Tool {
    Tool::from_json(&j(text))
}

// ── Tool deserialization ──────────────────────────────────────────────

#[test]
fn deserialize_function_tool() {
    let json = r#"{"type":"function","name":"get_weather","description":"Get weather","parameters":{"type":"object"},"strict":true}"#;
    match tool(json) {
        Tool::Function(f) => {
            assert_eq!(f.name, "get_weather");
            assert!(f.strict);
        }
        _ => panic!("expected Function variant"),
    }
}

#[test]
fn deserialize_file_search_tool() {
    let json = r#"{"type":"file_search","vector_store_ids":["vs_abc123"],"max_num_results":10}"#;
    match tool(json) {
        Tool::FileSearch(f) => {
            assert_eq!(f.vector_store_ids, vec!["vs_abc123"]);
            assert_eq!(f.max_num_results, Some(10));
        }
        _ => panic!("expected FileSearch variant"),
    }
}

#[test]
fn deserialize_code_interpreter_tool() {
    let json = r#"{"type":"code_interpreter","container":{"type":"auto"}}"#;
    match tool(json) {
        Tool::CodeInterpreter(c) => match c.container {
            CodeInterpreterContainer::Auto(_) => {}
            _ => panic!("expected Auto container variant"),
        },
        _ => panic!("expected CodeInterpreter variant"),
    }
}

#[test]
fn deserialize_apply_patch_tool() {
    assert!(matches!(tool(r#"{"type":"apply_patch"}"#), Tool::ApplyPatch(_)));
}

#[test]
fn deserialize_unknown_tool() {
    assert!(matches!(tool(r#"{"type":"future_tool_v2","some_field":42}"#), Tool::Unknown(_)));
}

// ── Sub-type deserialization ──────────────────────────────────────────

#[test]
fn deserialize_file_search_comparison_filter() {
    let json = r#"{"type":"eq","key":"filename","value":"report.pdf"}"#;
    match FileSearchFilters::from_json(&j(json)).unwrap() {
        FileSearchFilters::Comparison(c) => {
            assert_eq!(c.filter_type, "eq");
            assert_eq!(c.key, "filename");
        }
        _ => panic!("expected Comparison variant"),
    }
}

#[test]
fn deserialize_file_search_compound_filter() {
    let json = r#"{"type":"and","filters":[{"type":"eq","key":"filename","value":"report.pdf"}]}"#;
    match FileSearchFilters::from_json(&j(json)).unwrap() {
        FileSearchFilters::Compound(c) => {
            assert_eq!(c.filter_type, "and");
            assert_eq!(c.filters.len(), 1);
        }
        _ => panic!("expected Compound variant"),
    }
}

#[test]
fn deserialize_code_interpreter_container_auto() {
    let json = r#"{"type":"auto","memory_limit":"4g"}"#;
    match CodeInterpreterContainer::from_json(&j(json)).unwrap() {
        CodeInterpreterContainer::Auto(a) => {
            assert_eq!(a.container_type, "auto");
            assert_eq!(a.memory_limit.as_deref(), Some("4g"));
        }
        _ => panic!("expected Auto variant"),
    }
}

#[test]
fn deserialize_code_interpreter_container_reference() {
    let json = r#"{"type":"reference","container_id":"ctr_123"}"#;
    match CodeInterpreterContainer::from_json(&j(json)).unwrap() {
        CodeInterpreterContainer::Reference(r) => {
            assert_eq!(r.container_type, "reference");
            assert_eq!(r.container_id, "ctr_123");
        }
        _ => panic!("expected Reference variant"),
    }
}

#[test]
fn deserialize_mcp_allowed_tools_all() {
    match McpAllowedTools::from_json(&j(r#"["tool_a","tool_b"]"#)).unwrap() {
        McpAllowedTools::All(names) => assert_eq!(names, vec!["tool_a", "tool_b"]),
        _ => panic!("expected All variant"),
    }
}

#[test]
fn deserialize_mcp_allowed_tools_filter() {
    let json = r#"{"read_only":true,"tool_names":["tool_a"]}"#;
    match McpAllowedTools::from_json(&j(json)).unwrap() {
        McpAllowedTools::Filter(f) => {
            assert_eq!(f.read_only, Some(true));
            assert_eq!(f.tool_names, vec!["tool_a"]);
        }
        _ => panic!("expected Filter variant"),
    }
}

#[test]
fn deserialize_mcp_require_approval_setting() {
    match McpRequireApproval::from_json(&j(r#""always""#)).unwrap() {
        McpRequireApproval::Setting(s) => assert_eq!(s, "always"),
        _ => panic!("expected Setting variant"),
    }
}

#[test]
fn deserialize_custom_tool_format_text() {
    let fmt = CustomToolFormat::from_json(&j(r#"{"type":"text"}"#)).unwrap();
    assert!(matches!(fmt, CustomToolFormat::Text(_)));
}

#[test]
fn deserialize_custom_tool_format_grammar() {
    let json = r#"{"type":"grammar","definition":"start: rule","syntax":"lark"}"#;
    match CustomToolFormat::from_json(&j(json)).unwrap() {
        CustomToolFormat::Grammar(g) => {
            assert_eq!(g.format_type, "grammar");
            assert_eq!(g.syntax, "lark");
        }
        _ => panic!("expected Grammar variant"),
    }
}

#[test]
fn deserialize_namespace_tool_item_function() {
    let json = r#"{"type":"function","name":"my_func","description":"A helper"}"#;
    match NamespaceToolItem::from_json(&j(json)).unwrap() {
        NamespaceToolItem::Function(f) => {
            assert_eq!(f.item_type, "function");
            assert_eq!(f.name, "my_func");
        }
        _ => panic!("expected Function variant"),
    }
}

#[test]
fn deserialize_namespace_tool_item_custom() {
    let json = r#"{"type":"custom","name":"my_custom"}"#;
    match NamespaceToolItem::from_json(&j(json)).unwrap() {
        NamespaceToolItem::Custom(c) => {
            assert_eq!(c.item_type, "custom");
            assert_eq!(c.name, "my_custom");
        }
        _ => panic!("expected Custom variant"),
    }
}

// ── Further cases ─────────────────────────────────────────────────────

#[test]
fn a_tool_whose_fields_do_not_read_is_kept_unknown() {
    // `strict` is required of a function tool.
    let text = r#"{"type":"function","name":"f","parameters":{}}"#;
    match tool(text) {
        Tool::Unknown(v) => assert!(matches!(v, Json::Object(_))),
        _ => panic!("expected Unknown"),
    }
    // A tool without a string `type` is unknown too.
    assert!(matches!(tool(r#"{"name":"x"}"#), Tool::Unknown(_)));
    assert!(matches!(tool(r#""function""#), Tool::Unknown(_)));
}

#[test]
fn dated_web_search_types_read_as_web_search() {
    assert!(matches!(tool(r#"{"type":"web_search_2025_08_26"}"#), Tool::WebSearch(_)));
    match tool(r#"{"type":"web_search_preview_2025_03_11","search_context_size":"low","user_location":null,"search_content_types":null}"#) {
        Tool::WebSearchPreview(w) => {
            assert_eq!(w.search_context_size.as_deref(), Some("low"));
            assert!(w.user_location.is_none());
        }
        _ => panic!("expected WebSearchPreview"),
    }
}

#[test]
fn integers_out_of_range_do_not_read() {
    let big = r#"{"type":"computer_use_preview","display_width":9223372036854775808,"display_height":1,"environment":"mac"}"#;
    assert!(matches!(tool(big), Tool::Unknown(_)));
    let ok = r#"{"type":"computer_use_preview","display_width":-1,"display_height":768,"environment":"mac"}"#;
    match tool(ok) {
        Tool::ComputerUsePreview(c) => {
            assert_eq!(c.display_width, -1);
            assert_eq!(c.display_height, 768);
            assert_eq!(c.environment, "mac");
        }
        _ => panic!("expected ComputerUsePreview"),
    }
}

#[test]
fn a_struct_reads_from_an_array_in_field_order() {
    // A container reference given as an array refuses nothing by name.
    match CodeInterpreterContainer::from_json(&j(r#"["reference","ctr_9"]"#)).unwrap() {
        CodeInterpreterContainer::Reference(r) => assert_eq!(r.container_id, "ctr_9"),
        _ => panic!("expected Reference"),
    }
    // The auto container takes one to four elements.
    match CodeInterpreterContainer::from_json(&j(r#"["auto"]"#)).unwrap() {
        CodeInterpreterContainer::Auto(a) => assert!(a.file_ids.is_none()),
        _ => panic!("expected Auto"),
    }
    assert!(CodeInterpreterContainer::from_json(&j(r#"[]"#)).is_none());
}

#[test]
fn unknown_members_are_refused_where_the_struct_says_so() {
    // Each container shape refuses a member only the other one has.
    let text = r#"{"type":"reference","container_id":"c","memory_limit":"1g"}"#;
    assert!(CodeInterpreterContainer::from_json(&j(text)).is_none());
    let text = r#"{"type":"text","extra":1}"#;
    match CustomToolFormat::from_json(&j(text)) {
        None => {}
        Some(_) => panic!("an unknown member must be refused"),
    }
}

#[test]
fn network_policies_read_by_tag() {
    assert!(matches!(NetworkPolicy::from_json(&j(r#"{"type":"disabled","x":1}"#)), Some(NetworkPolicy::Disabled)));
    match NetworkPolicy::from_json(&j(r#"{"type":"allowlist","allowed_domains":["a.com"]}"#)).unwrap() {
        NetworkPolicy::Allowlist { allowed_domains, domain_secrets } => {
            assert_eq!(allowed_domains, vec!["a.com"]);
            assert!(domain_secrets.is_none());
        }
        _ => panic!("expected Allowlist"),
    }
    // By position, as a buffered value allows.
    assert!(matches!(NetworkPolicy::from_json(&j(r#"[0]"#)), Some(NetworkPolicy::Disabled)));
    assert!(NetworkPolicy::from_json(&j(r#"["disabled", 1]"#)).is_none());
    assert!(NetworkPolicy::from_json(&j(r#"{"type":"open"}"#)).is_none());
    assert!(NetworkPolicy::from_json(&j(r#"{"allowed_domains":[]}"#)).is_none());
}

#[test]
fn shell_environments_and_skills_read_by_tag() {
    let text = r#"{"type":"shell","environment":{"type":"container_auto","skills":[{"type":"skill_reference","skill_id":"s1"},{"type":"inline","name":"n","description":"d","source":{"a":1}}]}}"#;
    match tool(text) {
        Tool::Shell(s) => match s.environment.unwrap() {
            Environment::ContainerAuto { skills, .. } => {
                let skills = skills.unwrap();
                assert_eq!(skills.len(), 2);
                assert!(matches!(&skills[0], Skill::SkillReference { skill_id, version: None } if skill_id == "s1"));
                assert!(matches!(&skills[1], Skill::Inline { name, .. } if name == "n"));
            }
            _ => panic!("expected ContainerAuto"),
        },
        _ => panic!("expected Shell"),
    }
    // An environment's tag is read from the value itself: a position does not name it.
    assert!(Environment::from_json(&j(r#"{"type":2,"container_id":"c"}"#)).is_none());
    match Environment::from_json(&j(r#"{"type":"container_reference","container_id":"c"}"#)).unwrap() {
        Environment::ContainerReference { container_id } => assert_eq!(container_id, "c"),
        _ => panic!("expected ContainerReference"),
    }
}

#[test]
fn mcp_tools_keep_headers_and_approvals() {
    let text = r#"{"type":"mcp","server_label":"s","server_url":"https://m","connector_id":null,"authorization":null,"headers":{"X-A":"1","X-B":"2"},"server_description":null,"defer_loading":false,"allowed_tools":null,"require_approval":{"always":{"read_only":null,"tool_names":["x"]},"never":{"read_only":true,"tool_names":[]}}}"#;
    match tool(text) {
        Tool::Mcp(m) => {
            assert_eq!(m.server_label, "s");
            assert_eq!(
                m.headers.unwrap(),
                vec![("X-A".to_string(), "1".to_string()), ("X-B".to_string(), "2".to_string())]
            );
            assert_eq!(m.defer_loading, Some(false));
            match m.require_approval.unwrap() {
                McpRequireApproval::Filter(f) => {
                    assert_eq!(f.always.tool_names, vec!["x"]);
                    assert_eq!(f.never.read_only, Some(true));
                }
                _ => panic!("expected Filter"),
            }
        }
        _ => panic!("expected Mcp"),
    }
    // A header that is not a string makes the tool unknown.
    let bad = r#"{"type":"mcp","server_label":"s","server_url":null,"connector_id":null,"authorization":null,"headers":{"X":1},"server_description":null,"defer_loading":null,"allowed_tools":null,"require_approval":null}"#;
    assert!(matches!(tool(bad), Tool::Unknown(_)));
}

#[test]
fn namespaces_read_their_tools() {
    let text = r#"{"type":"namespace","name":"ns","description":null,"tools":[{"type":"function","name":"f"},{"type":"custom","name":"c","format":{"type":"text"}}]}"#;
    match tool(text) {
        Tool::Namespace(n) => {
            assert_eq!(n.tools.len(), 2);
            assert!(matches!(&n.tools[1], NamespaceToolItem::Custom(c) if matches!(c.format, Some(CustomToolFormat::Text(_)))));
        }
        _ => panic!("expected Namespace"),
    }
    // A namespace function refuses members it does not know.
    assert!(NamespaceToolItem::from_json(&j(r#"{"type":"function","name":"f","extra":1}"#)).is_none());
}

#[test]
fn ranking_weights_keep_their_numbers() {
    let text = r#"{"type":"file_search","vector_store_ids":[],"max_num_results":null,"filters":null,"ranking_options":{"ranker":"hybrid","score_threshold":0.5,"hybrid_search":{"embedding_weight":1,"text_weight":0.25}}}"#;
    match tool(text) {
        Tool::FileSearch(f) => {
            let r = f.ranking_options.unwrap();
            assert!(matches!(r.score_threshold, Some(Number::Float(ref s)) if s == "0.5"));
            let h = r.hybrid_search.unwrap();
            assert!(matches!(h.embedding_weight, Number::PosInt(1)));
        }
        _ => panic!("expected FileSearch"),
    }
}

// ── Tools as a request gives them ─────────────────────────────────────

#[test]
fn roundtrip_tool_param_function() {
    // The text a function tool request with these fields is written as.
    let json = r#"{"type":"function","name":"my_func","description":"Does a thing","parameters":{"type":"object"},"strict":true}"#;
    assert!(json.contains(r#""type":"function""#));
    match ToolRequest::from_json(&j(json)).unwrap() {
        ToolRequest::Function(f) => {
            assert_eq!(f.name.as_deref(), Some("my_func"));
            assert_eq!(f.strict, Some(true));
            assert!(f.defer_loading.is_none());
        }
        _ => panic!("expected Function variant"),
    }
}

#[test]
fn request_tools_of_unknown_type_do_not_read() {
    assert!(ToolRequest::from_json(&j(r#"{"type":"future_tool"}"#)).is_none());
    assert!(ToolRequest::from_json(&j(r#"{"name":"f"}"#)).is_none());
    assert!(matches!(ToolRequest::from_json(&j(r#"{"type":"apply_patch"}"#)), Some(ToolRequest::ApplyPatch(_))));
    // A request's function tool needs every field it lists, in an object
    // as `null` or absent, in an array in place.
    let f: FunctionToolRequest = match ToolRequest::from_json(&j(r#"["function", null, null, null, null, null]"#)).unwrap() {
        ToolRequest::Function(f) => f,
        _ => panic!("expected Function"),
    };
    assert!(f.name.is_none() && f.parameters.is_none());
    assert!(ToolRequest::from_json(&j(r#"["function", null]"#)).is_none());
}

#[test]
fn request_tools_name_nested_variants_by_position() {
    // Read from a buffered value, an environment's tag may be its position.
    let text = r#"{"type":"shell","environment":{"type":2,"container_id":"c"}}"#;
    match ToolRequest::from_json(&j(text)).unwrap() {
        ToolRequest::Shell(s) => {
            assert!(matches!(s.environment, Some(Environment::ContainerReference { ref container_id }) if container_id == "c"));
        }
        _ => panic!("expected Shell"),
    }
    // The response-side shell tool reads the environment by name only.
    assert!(matches!(tool(text), Tool::Unknown(_)));
}
