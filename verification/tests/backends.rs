use fastxt::ai::{AiConfig, AiError};
use fastxt::backends::{
    api_url, categories_from_response, numbered_text_list, request_error, status_error,
    structured_categories, structured_tags, truncate_str, LlamaCppBackend, OllamaBackend,
};

#[test]
fn llamacpp_test_backend_creation() {
    let backend = LlamaCppBackend::new();
    assert_eq!(backend.backend_name(), "llamacpp");
}

#[test]
fn test_backend_default() {
    let backend = LlamaCppBackend::default();
    assert_eq!(backend.backend_name(), "llamacpp");
}

#[test]
fn llamacpp_test_parse_tags_json_array() {
    let response = r#"["rust", "programming", "tutorial"]"#;
    let tags = LlamaCppBackend::parse_tags(response);
    assert_eq!(tags, vec!["rust", "programming", "tutorial"]);
}

#[test]
fn llamacpp_test_parse_tags_comma_separated() {
    let response = "rust, programming, tutorial";
    let tags = LlamaCppBackend::parse_tags(response);
    assert_eq!(tags, vec!["rust", "programming", "tutorial"]);
}

#[test]
fn llamacpp_test_parse_tags_filters_empty() {
    let response = "rust, , programming,";
    let tags = LlamaCppBackend::parse_tags(response);
    assert_eq!(tags, vec!["rust", "programming"]);
}

#[test]
fn test_parse_bullet_points() {
    let response = "- First point\n- Second point\n- Third point";
    let points = LlamaCppBackend::parse_bullet_points(response);
    assert_eq!(points, vec!["First point", "Second point", "Third point"]);
}

#[test]
fn llamacpp_test_parse_bullet_points_numbered() {
    let response = "1. First\n2. Second\n3. Third";
    let points = LlamaCppBackend::parse_bullet_points(response);
    assert_eq!(points, vec!["First", "Second", "Third"]);
}

#[test]
fn llamacpp_test_parse_bullet_points_mixed() {
    let response = "* Point one\n- Point two\n3) Point three";
    let points = LlamaCppBackend::parse_bullet_points(response);
    assert_eq!(points, vec!["Point one", "Point two", "Point three"]);
}

#[test]
fn test_get_base_url_default() {
    let config = AiConfig {
        endpoint: None,
        ..Default::default()
    };
    assert_eq!(
        LlamaCppBackend::get_base_url(&config),
        "http://localhost:8080"
    );
}

#[test]
fn test_get_base_url_custom() {
    let config = AiConfig {
        endpoint: Some("http://192.168.1.100:9090".to_string()),
        ..Default::default()
    };
    assert_eq!(
        LlamaCppBackend::get_base_url(&config),
        "http://192.168.1.100:9090"
    );
}

#[test]
fn ollama_test_parse_tags_json_array() {
    let response = r#"["rust", "programming", "tutorial"]"#;
    let tags = OllamaBackend::parse_tags(response);
    assert_eq!(tags, vec!["rust", "programming", "tutorial"]);
}

#[test]
fn ollama_test_parse_tags_comma_separated() {
    let response = "rust, programming, tutorial";
    let tags = OllamaBackend::parse_tags(response);
    assert_eq!(tags, vec!["rust", "programming", "tutorial"]);
}

#[test]
fn test_parse_tags_newline_separated() {
    let response = "rust\nprogramming\ntutorial";
    let tags = OllamaBackend::parse_tags(response);
    assert_eq!(tags, vec!["rust", "programming", "tutorial"]);
}

#[test]
fn ollama_test_parse_tags_filters_empty() {
    let response = "rust, , programming,";
    let tags = OllamaBackend::parse_tags(response);
    assert_eq!(tags, vec!["rust", "programming"]);
}

#[test]
fn ollama_test_backend_creation() {
    let backend = OllamaBackend::new();
    assert_eq!(backend.backend_name(), "ollama");
}

#[test]
fn test_truncate_str_ascii() {
    assert_eq!(truncate_str("hello world", 5), "hello");
    assert_eq!(truncate_str("hello", 10), "hello");
    assert_eq!(truncate_str("", 5), "");
}

#[test]
fn test_parse_bullet_points_dashes() {
    let response = "- First point\n- Second point\n- Third point";
    let points = OllamaBackend::parse_bullet_points(response);
    assert_eq!(points, vec!["First point", "Second point", "Third point"]);
}

#[test]
fn ollama_test_parse_bullet_points_numbered() {
    let response = "1. First\n2. Second\n3. Third";
    let points = OllamaBackend::parse_bullet_points(response);
    assert_eq!(points, vec!["First", "Second", "Third"]);
}

#[test]
fn ollama_test_parse_bullet_points_mixed() {
    let response = "* Point one\n- Point two\n3) Point three";
    let points = OllamaBackend::parse_bullet_points(response);
    assert_eq!(points, vec!["Point one", "Point two", "Point three"]);
}

#[test]
fn test_parse_bullet_points_empty_lines() {
    let response = "- First\n\n- Second\n  \n- Third";
    let points = OllamaBackend::parse_bullet_points(response);
    assert_eq!(points, vec!["First", "Second", "Third"]);
}

#[test]
fn test_truncate_str_multibyte() {
    // Each CJK character is 3 bytes in UTF-8
    let text = "\u{4f60}\u{597d}\u{4e16}\u{754c}"; // 12 bytes total
    let result = truncate_str(text, 7);
    // Should cut at char boundary: 6 bytes = 2 chars
    assert_eq!(result, "\u{4f60}\u{597d}");
}

#[test]
fn truncate_str_edges() {
    assert_eq!(truncate_str("\u{4f60}\u{597d}", 2), "");
    assert_eq!(truncate_str("a\u{4f60}", 3), "a");
    assert_eq!(truncate_str("a\u{4f60}", 4), "a\u{4f60}");
    assert_eq!(truncate_str("abc", 0), "");
}

#[test]
fn free_form_tags_are_cleaned_and_limited() {
    let tags = OllamaBackend::parse_tags("[ \"Rust\"; 'web'\n  , x ]");
    assert_eq!(tags, vec!["Rust", "web", "x"]);
    let long = format!("ok, {}", "y".repeat(50));
    assert_eq!(OllamaBackend::parse_tags(&long), vec!["ok"]);
    let many = "a,b,c,d,e,f,g,h,i,j,k,l";
    assert_eq!(OllamaBackend::parse_tags(many).len(), 10);
    assert_eq!(OllamaBackend::parse_tags("[]"), Vec::<String>::new());
}

#[test]
fn bullet_points_strip_bullets_numbers_and_punctuation() {
    let points = OllamaBackend::parse_bullet_points("\u{2022} Dot\n10: Ten\n--\n7\r\n");
    assert_eq!(points, vec!["Dot", "Ten"]);
}

#[test]
fn categories_prefer_json_then_lines_then_other() {
    assert_eq!(
        categories_from_response(r#"["work", "idea"]"#, 2),
        vec!["work", "idea"]
    );
    assert_eq!(
        categories_from_response("1. Work\n\n2. Personal\n", 2),
        vec!["work", "personal"]
    );
    assert_eq!(
        categories_from_response(r#"["work"]"#, 2),
        vec!["other", "other"]
    );
    assert_eq!(categories_from_response("Task\nIdea\nOther", 2), vec!["task", "idea"]);
}

#[test]
fn structured_output_is_kept_when_complete() {
    assert_eq!(structured_tags(Some(vec!["a".to_string()])), Some(vec!["a".to_string()]));
    assert_eq!(structured_tags(Some(vec![])), None);
    assert_eq!(structured_tags(None), None);
    assert_eq!(
        structured_categories(Some(vec!["a".to_string()]), 1),
        Some(vec!["a".to_string()])
    );
    assert_eq!(structured_categories(Some(vec!["a".to_string()]), 2), None);
}

#[test]
fn numbered_text_list_truncates_each_text() {
    let long = "z".repeat(250);
    let list = numbered_text_list(&["first", long.as_str()]);
    assert_eq!(list, format!("1. first\n2. {}\n", "z".repeat(200)));
}

#[test]
fn request_errors_and_urls() {
    assert!(matches!(request_error(true, "x".to_string()), AiError::Timeout));
    match request_error(false, "refused".to_string()) {
        AiError::ConnectionError(m) => assert_eq!(m, "refused"),
        _ => panic!("expected a connection error"),
    }
    match status_error("Ollama", "500 Internal Server Error") {
        AiError::ConnectionError(m) => {
            assert_eq!(m, "Ollama returned status 500 Internal Server Error")
        }
        _ => panic!("expected a connection error"),
    }
    assert_eq!(
        api_url("http://localhost:11434", "/api/generate"),
        "http://localhost:11434/api/generate"
    );
}

#[test]
fn llamacpp_health_and_choices() {
    assert!(LlamaCppBackend::health_result("ok").is_ok());
    match LlamaCppBackend::health_result("loading") {
        Err(AiError::ConnectionError(m)) => assert_eq!(m, "llama-server status: loading"),
        _ => panic!("expected a connection error"),
    }
    assert_eq!(
        LlamaCppBackend::first_choice(&vec!["  hi  ".to_string(), "x".to_string()]).unwrap(),
        "hi"
    );
    match LlamaCppBackend::first_choice(&vec![]) {
        Err(AiError::InvalidResponse(m)) => assert_eq!(m, "No choices in response"),
        _ => panic!("expected an invalid response"),
    }
    assert_eq!(LlamaCppBackend::get_model(&AiConfig::default()), Some("llama3.2".to_string()));
}

#[test]
fn ollama_defaults_and_prompts() {
    let config = AiConfig {
        endpoint: None,
        model: None,
        ..Default::default()
    };
    assert_eq!(OllamaBackend::get_base_url(&config), "http://localhost:11434");
    assert_eq!(OllamaBackend::get_model(&config), "llama3.2");
    assert_eq!(OllamaBackend::request_model(&config, Some("phi")), "phi");
    assert_eq!(OllamaBackend::new().timeout_secs(), 60);
    assert_eq!(OllamaBackend::with_timeout(5).timeout_secs(), 5);
    assert_eq!(LlamaCppBackend::with_timeout(7).timeout_secs(), 7);
    assert!(OllamaBackend::summarize_prompt("T").ends_with("Text:\nT\n\nSummary:"));
    assert_eq!(LlamaCppBackend::tags_user("T"), "Suggest tags for this text:\n\nT");
}
