#![allow(dead_code)]
use responses_proxy::config::{
    default_listen_addr, default_timeout, default_tool_allowlist, resolve_config, AuthConfig, Config,
    ModelEntry, ProviderConfig, ResolvedConfig, ServerConfig,
};

fn str_at(v: &serde_yaml::Value, key: &str) -> Option<String> {
    v.get(key).and_then(|x| x.as_str()).map(|x| x.to_string())
}

fn strings_at(v: &serde_yaml::Value, key: &str) -> Option<Vec<String>> {
    v.get(key).and_then(|x| x.as_sequence()).map(|s| {
        s.iter().map(|x| x.as_str().unwrap_or_default().to_string()).collect()
    })
}

/// The configuration a YAML text holds, each absent member taking its default.
fn config_from(yaml: &str) -> Result<Config, String> {
    let v: serde_yaml::Value = serde_yaml::from_str(yaml).map_err(|e| format!("parse error: {e}"))?;
    let server = match v.get("server") {
        Some(s) => {
            let auth = match s.get("auth") {
                Some(a) => AuthConfig {
                    enabled: a.get("enabled").and_then(|x| x.as_bool()).unwrap_or(false),
                    keys: strings_at(a, "keys").unwrap_or_default(),
                },
                None => AuthConfig::default(),
            };
            ServerConfig {
                listen_addr: str_at(s, "listen_addr").unwrap_or_else(default_listen_addr),
                request_timeout_secs: s
                    .get("request_timeout_secs")
                    .and_then(|x| x.as_u64())
                    .unwrap_or_else(default_timeout),
                auth,
                tool_type_allowlist: strings_at(s, "tool_type_allowlist")
                    .unwrap_or_else(default_tool_allowlist),
            }
        }
        None => ServerConfig::default(),
    };
    let mut models = Vec::new();
    if let Some(entries) = v.get("models").and_then(|m| m.as_sequence()) {
        for e in entries {
            let model = str_at(e, "model").ok_or("parse error: missing field `model`")?;
            let p = e.get("provider").ok_or("parse error: missing field `provider`")?;
            models.push(ModelEntry {
                model,
                provider: ProviderConfig {
                    base_url: str_at(p, "base_url").ok_or("parse error: missing field `base_url`")?,
                    api_key: str_at(p, "api_key").ok_or("parse error: missing field `api_key`")?,
                },
                downstream_model: str_at(e, "downstream_model"),
            });
        }
    }
    Ok(Config { server, models })
}

fn parse_with(yaml: &str, env: &[(String, String)]) -> Result<ResolvedConfig, String> {
    resolve_config(config_from(yaml)?, env)
}

fn parse(yaml: &str) -> Result<ResolvedConfig, String> {
    parse_with(yaml, &[])
}

#[test]
fn test_minimal_config() {
    let yaml = r#"
models:
  - model: deepseek-v4-pro
    provider:
      base_url: https://api.deepseek.com
      api_key: sk-abc
"#;
    let c = parse(yaml).unwrap();
    assert_eq!(c.listen_addr, "0.0.0.0:3000");
    assert_eq!(c.request_timeout_secs, 120);
    assert!(!c.auth_enabled);
    assert!(c.auth_keys.is_empty());
    assert_eq!(c.tool_type_allowlist, vec!["function"]);
    assert_eq!(c.model_names, vec!["deepseek-v4-pro"]);
    let p = c.models.get("deepseek-v4-pro").unwrap();
    assert_eq!(p.base_url, "https://api.deepseek.com");
    assert_eq!(p.api_key, "sk-abc");
    assert_eq!(p.downstream_model, "deepseek-v4-pro");
}

#[test]
fn test_full_config() {
    let yaml = r#"
server:
  listen_addr: "127.0.0.1:8080"
  request_timeout_secs: 60
  auth:
    enabled: true
    keys:
      - sk-secret-1
      - sk-secret-2
  tool_type_allowlist:
    - function
    - web_search_preview

models:
  - model: my-model
    provider:
      base_url: https://example.com
      api_key: sk-xyz
    downstream_model: their-model
"#;
    let c = parse(yaml).unwrap();
    assert_eq!(c.listen_addr, "127.0.0.1:8080");
    assert_eq!(c.request_timeout_secs, 60);
    assert!(c.auth_enabled);
    assert_eq!(c.auth_keys, vec!["sk-secret-1", "sk-secret-2"]);
    assert_eq!(
        c.tool_type_allowlist,
        vec!["function", "web_search_preview"]
    );
    let p = c.models.get("my-model").unwrap();
    assert_eq!(p.base_url, "https://example.com");
    assert_eq!(p.api_key, "sk-xyz");
    assert_eq!(p.downstream_model, "their-model");
}

#[test]
fn test_missing_server_uses_defaults() {
    let yaml = r#"
models:
  - model: m
    provider:
      base_url: https://x.com
      api_key: k
"#;
    let c = parse(yaml).unwrap();
    assert_eq!(c.listen_addr, "0.0.0.0:3000");
    assert_eq!(c.request_timeout_secs, 120);
    assert!(!c.auth_enabled);
}

#[test]
fn test_auth_optional_fields_default() {
    let yaml = r#"
server:
  auth: {}
models:
  - model: m
    provider:
      base_url: https://x.com
      api_key: k
"#;
    let c = parse(yaml).unwrap();
    assert!(!c.auth_enabled);
    assert!(c.auth_keys.is_empty());
}

#[test]
fn test_tool_allowlist_defaults_to_function() {
    let yaml = r#"
models:
  - model: m
    provider:
      base_url: https://x.com
      api_key: k
"#;
    let c = parse(yaml).unwrap();
    assert_eq!(c.tool_type_allowlist, vec!["function"]);
}

#[test]
fn test_multiple_models_ordering() {
    let yaml = r#"
models:
  - model: b
    provider:
      base_url: https://b.com
      api_key: kb
  - model: a
    provider:
      base_url: https://a.com
      api_key: ka
"#;
    let c = parse(yaml).unwrap();
    assert_eq!(c.model_names, vec!["b", "a"]);
    assert!(c.models.contains_key("b"));
    assert!(c.models.contains_key("a"));
    assert_eq!(c.models.get("b").unwrap().base_url, "https://b.com");
    assert_eq!(c.models.get("a").unwrap().base_url, "https://a.com");
}

#[test]
fn test_downstream_model_defaults_to_model() {
    let yaml = r#"
models:
  - model: gpt-4
    provider:
      base_url: https://x.com
      api_key: k
"#;
    let c = parse(yaml).unwrap();
    assert_eq!(c.models.get("gpt-4").unwrap().downstream_model, "gpt-4");
}

#[test]
fn test_env_var_resolved() {
    let env = vec![
        ("TEST_API_KEY".to_string(), "sk-from-env".to_string()),
        ("TEST_BASE_URL".to_string(), "https://env.example.com".to_string()),
    ];

    let yaml = r#"
models:
  - model: m
    provider:
      base_url: $TEST_BASE_URL
      api_key: $TEST_API_KEY
"#;
    let c = parse_with(yaml, &env).unwrap();
    let p = c.models.get("m").unwrap();
    assert_eq!(p.base_url, "https://env.example.com");
    assert_eq!(p.api_key, "sk-from-env");
}

#[test]
fn test_env_var_unset_uses_empty() {
    let env: Vec<(String, String)> = Vec::new();

    let yaml = r#"
models:
  - model: m
    provider:
      base_url: https://x.com
      api_key: $MISSING_VAR
"#;
    let c = parse_with(yaml, &env).unwrap();
    assert_eq!(c.models.get("m").unwrap().api_key, "");
}

#[test]
fn test_no_dollar_prefix_uses_raw_value() {
    let yaml = r#"
models:
  - model: m
    provider:
      base_url: https://api.example.com/v1
      api_key: sk-plain-text-key
"#;
    let c = parse(yaml).unwrap();
    let p = c.models.get("m").unwrap();
    assert_eq!(p.base_url, "https://api.example.com/v1");
    assert_eq!(p.api_key, "sk-plain-text-key");
}

#[test]
fn test_empty_models_is_error() {
    let yaml = r#"
models: []
"#;
    let err = parse(yaml).unwrap_err();
    assert!(err.contains("No models configured"));
}

#[test]
fn test_missing_models_field_is_error() {
    let yaml = r#"
server:
  listen_addr: "0.0.0.0:3000"
"#;
    let err = parse(yaml).unwrap_err();
    assert!(err.contains("No models configured"));
}

#[test]
fn test_parse_error_on_missing_provider() {
    let yaml = r#"
models:
  - model: m
"#;
    // provider is required, so YAML deser should fail
    let result = parse(yaml);
    assert!(result.is_err());
}

#[test]
fn test_parse_error_invalid_yaml() {
    let result = parse("{{{ bad yaml");
    assert!(result.is_err());
}

#[test]
fn test_custom_tool_allowlist() {
    let yaml = r#"
server:
  tool_type_allowlist:
    - function
    - web_search_preview
    - image_generation
models:
  - model: m
    provider:
      base_url: https://x.com
      api_key: k
"#;
    let c = parse(yaml).unwrap();
    assert_eq!(
        c.tool_type_allowlist,
        vec!["function", "web_search_preview", "image_generation"]
    );
}
