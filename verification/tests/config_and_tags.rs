use fastxt::ai::{AiConfig, AiError};
use fastxt::tags::{make_tags, merge_ai_tags, resolve_ai_tags};

#[test]
fn test_ai_config_default() {
    let config = AiConfig::default();
    assert_eq!(config.endpoint, Some("http://localhost:11434".to_string()));
    assert_eq!(config.model, Some("llama3.2".to_string()));
    assert!(config.tagging_model.is_none());
    assert!(config.summarize_model.is_none());
    assert!(config.embedding_model.is_none());
    assert!(config.categorize_model.is_none());
    assert!(config.reasoning_effort.is_none());
}

#[test]
fn test_model_for_task_defaults() {
    let config = AiConfig::default();
    assert_eq!(config.model_for_task("tagging"), "llama3.2");
    assert_eq!(config.model_for_task("summarize"), "llama3.2");
    assert_eq!(config.model_for_task("embedding"), "llama3.2");
    assert_eq!(config.model_for_task("categorize"), "llama3.2");
    assert_eq!(config.model_for_task("unknown"), "llama3.2");
}

#[test]
fn test_model_for_task_overrides() {
    let config = AiConfig {
        tagging_model: Some("mistral".to_string()),
        embedding_model: Some("nomic-embed-text".to_string()),
        ..Default::default()
    };
    assert_eq!(config.model_for_task("tagging"), "mistral");
    assert_eq!(config.model_for_task("summarize"), "llama3.2");
    assert_eq!(config.model_for_task("embedding"), "nomic-embed-text");
    assert_eq!(config.model_for_task("categorize"), "llama3.2");
}

#[test]
fn test_model_for_task_no_general_model() {
    let config = AiConfig {
        model: None,
        tagging_model: Some("mistral".to_string()),
        ..Default::default()
    };
    assert_eq!(config.model_for_task("tagging"), "mistral");
    // Falls back to hardcoded default when both task and general model are None
    assert_eq!(config.model_for_task("summarize"), "llama3.2");
}

#[test]
fn config_defaults_for_generation() {
    let config = AiConfig::default();
    assert_eq!(config.max_tokens, Some(256));
    assert_eq!(config.temperature_milli, Some(300));
    assert_eq!(config.timeout_secs, Some(30));
}

#[test]
fn ai_error_messages() {
    assert_eq!(AiError::Unavailable.message(), "AI backend is not available");
    assert_eq!(
        AiError::ConnectionError("refused".to_string()).message(),
        "Connection error: refused"
    );
    assert_eq!(
        AiError::InvalidResponse("bad".to_string()).message(),
        "Invalid response: bad"
    );
    assert_eq!(AiError::Timeout.message(), "Request timed out");
    assert_eq!(AiError::InputTooLong.message(), "Input text is too long");
    assert_eq!(AiError::Other("x".to_string()).message(), "AI error: x");
}

#[test]
fn test_make_tags_dedup() {
    let result = make_tags("a,b,a");
    let tags: Vec<&str> = result.split(',').collect();
    assert_eq!(tags.len(), 2);
    assert!(tags.contains(&"a"));
    assert!(tags.contains(&"b"));

    let result = make_tags("rust  code  rust");
    let tags: Vec<&str> = result.split(',').collect();
    assert_eq!(tags.len(), 2);
    assert!(tags.contains(&"rust"));
    assert!(tags.contains(&"code"));
}

#[test]
fn test_make_tags_whitespace() {
    assert_eq!(make_tags("a  b  c"), "a,b,c");
    assert_eq!(make_tags("a,,b,,c"), "a,b,c");
}

#[test]
fn test_make_tags_empty_string() {
    // An empty input should produce an empty string, not panic.
    let result = make_tags("");
    assert_eq!(result, "");
}

#[test]
fn test_make_tags_whitespace_only() {
    let result = make_tags("   ");
    // Trimming + dedup; exact output may be empty or whitespace-collapsed
    assert!(!result.contains("  "));
}

#[test]
fn test_make_tags_trailing_comma() {
    let result = make_tags("a,b,");
    let tags: Vec<&str> = result.split(',').filter(|s| !s.is_empty()).collect();
    assert_eq!(tags.len(), 2);
}

#[test]
fn make_tags_keeps_each_tag_where_it_first_occurs() {
    assert_eq!(make_tags("a,b,a"), "a,b");
    assert_eq!(make_tags("rust  code  rust"), "rust,code");
    assert_eq!(make_tags(" x\ty , ,z\n x "), "x,y,z");
    assert_eq!(make_tags(make_tags("q w q e").as_str()), make_tags("q w q e"));
}

#[test]
fn test_merge_ai_tags() {
    let result = merge_ai_tags(r#"["rust","code"]"#, r#"["python","code"]"#);
    let tags: Vec<String> = serde_json::from_str(&result).unwrap();
    assert!(tags.contains(&"rust".to_string()));
    assert!(tags.contains(&"python".to_string()));
    assert!(tags.contains(&"code".to_string()));
}

#[test]
fn test_merge_ai_tags_union_dedup() {
    // Duplicate tags across both sides should be deduplicated.
    let result = merge_ai_tags(r#"["a","b"]"#, r#"["b","c"]"#);
    let tags: Vec<String> = serde_json::from_str(&result).unwrap();
    let unique: std::collections::HashSet<_> = tags.iter().collect();
    assert_eq!(tags.len(), unique.len(), "tags should be deduplicated");
}

#[test]
fn test_merge_ai_tags_comma_separated_fallback() {
    // Fallback: if existing tags are comma-separated (legacy format), they should be unioned.
    let result = merge_ai_tags("rust,code", r#"["python","code"]"#);
    let tags: Vec<String> = serde_json::from_str(&result).unwrap();
    assert!(tags.contains(&"rust".to_string()));
    assert!(tags.contains(&"python".to_string()));
}

#[test]
fn merge_lowercases_and_orders_first_side_first() {
    assert_eq!(
        merge_ai_tags(r#"["Rust"]"#, r#" "Web" , rust,,"#),
        r#"["rust","web"]"#
    );
}

#[test]
fn resolve_ai_tags_merges_only_when_both_have_tags() {
    assert_eq!(resolve_ai_tags(None, Some("[\"a\"]".to_string())), None);
    assert_eq!(
        resolve_ai_tags(Some("[\"b\"]".to_string()), None),
        Some("[\"b\"]".to_string())
    );
    assert_eq!(
        resolve_ai_tags(Some("[\"b\"]".to_string()), Some("[\"a\"]".to_string())),
        Some("[\"a\",\"b\"]".to_string())
    );
}

#[test]
fn merged_tags_are_written_with_json_escapes() {
    let stored = r#"["a\"b","c\\d","e\nf","g\u0001h"]"#;
    assert_eq!(merge_ai_tags(stored, ""), stored);
    assert_eq!(merge_ai_tags("[]", "[]"), "[]");
}
