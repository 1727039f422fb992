use fastxt::ai::{AiBackend, AiConfig, AiError};
use fastxt::mock::MockBackend;

#[test]
fn test_mock_backend_available() {
    let backend = MockBackend::new();
    assert!(backend.is_available());
}

#[test]
fn test_mock_backend_unavailable() {
    let backend = MockBackend::unavailable();
    assert!(!backend.is_available());
}

#[test]
fn test_mock_suggest_tags() {
    let backend = MockBackend::with_tags(vec!["test"]);
    let config = AiConfig::default();
    let tags = backend.suggest_tags("Hello World Python", &config).unwrap();
    assert!(tags.contains(&"test".to_string()));
}

#[test]
fn test_mock_summarize() {
    let backend = MockBackend::new();
    let config = AiConfig::default();
    let summary = backend
        .summarize("This is a test sentence. And another one.", &config)
        .unwrap();
    assert_eq!(summary, "This is a test sentence");
}

#[test]
fn test_mock_embed() {
    let backend = MockBackend::new();
    let config = AiConfig::default();
    let embedding = backend.embed("test text", &config).unwrap();
    assert_eq!(embedding.len(), 384);
    // Same text should produce same embedding
    let embedding2 = backend.embed("test text", &config).unwrap();
    assert_eq!(embedding, embedding2);
}

#[test]
fn test_mock_categorize() {
    let backend = MockBackend::new();
    let config = AiConfig::default();
    let categories = backend
        .categorize(&["code review", "meeting notes", "buy milk"], &config)
        .unwrap();
    assert_eq!(categories, vec!["programming", "work", "shopping"]);
}

#[test]
fn test_mock_unavailable_errors() {
    let backend = MockBackend::unavailable();
    let config = AiConfig::default();

    assert!(matches!(
        backend.suggest_tags("test", &config),
        Err(AiError::Unavailable)
    ));
    assert!(matches!(
        backend.summarize("test", &config),
        Err(AiError::Unavailable)
    ));
    assert!(matches!(
        backend.embed("test", &config),
        Err(AiError::Unavailable)
    ));
    assert!(matches!(
        backend.categorize(&["test"], &config),
        Err(AiError::Unavailable)
    ));
    assert!(matches!(
        backend.simplify("test", &config),
        Err(AiError::Unavailable)
    ));
    assert!(matches!(
        backend.key_points("test", &config),
        Err(AiError::Unavailable)
    ));
}

#[test]
fn test_mock_simplify() {
    let backend = MockBackend::new();
    let config = AiConfig::default();
    let result = backend.simplify("Hello World", &config).unwrap();
    assert_eq!(result, "hello world");
}

#[test]
fn test_mock_key_points() {
    let backend = MockBackend::new();
    let config = AiConfig::default();
    let points = backend
        .key_points("First point. Second point. Third point.", &config)
        .unwrap();
    assert_eq!(points, vec!["First point", "Second point", "Third point"]);
}

#[test]
fn test_mock_key_points_limits_to_five() {
    let backend = MockBackend::new();
    let config = AiConfig::default();
    let points = backend.key_points("A. B. C. D. E. F. G.", &config).unwrap();
    assert_eq!(points.len(), 5);
}

#[test]
fn mock_tags_add_capitalised_keywords_sorted() {
    let backend = MockBackend::with_tags(vec!["zeta", "alpha"]);
    let config = AiConfig::default();
    let tags = backend
        .suggest_tags("Hello World Python, Rust! small Words", &config)
        .unwrap();
    assert_eq!(tags, vec!["alpha", "hello", "python", "words", "world", "zeta"]);
}

#[test]
fn mock_tags_are_distinct_and_at_most_ten() {
    let backend = MockBackend::with_tags(vec!["dup", "dup"]);
    let tags = backend.tags_for_call(
        "Aaaaa1 Bbbbb2 Ccccc3 Ddddd4 Eeeee5 Fffff6 Ggggg7 Hhhhh8 Iiiii9 Jjjjj0 Kkkkk1 Aaaaa1",
        0,
    );
    assert_eq!(tags.len(), 10);
    assert_eq!(tags[0], "aaaaa1");
    assert_eq!(tags[9], "iiiii9");
}

#[test]
fn varying_tags_follow_the_call_number() {
    let backend = MockBackend::with_varying_tags(vec!["a", "b", "c"]);
    assert_eq!(backend.tags_for_call("", 0), vec!["a", "b", "c"]);
    assert_eq!(backend.tags_for_call("", 1), vec!["a", "b", "variant-1"]);
    assert_eq!(backend.tags_for_call("", 2), vec!["a", "c", "variant-2"]);
    assert_eq!(backend.tags_for_call("", 3), vec!["a", "b", "c"]);
    let single = MockBackend::with_varying_tags(vec!["x"]);
    assert_eq!(single.tags_for_call("", 2), vec!["variant-2"]);
}

#[test]
fn varying_tags_count_calls() {
    let backend = MockBackend::with_varying_tags(vec!["a", "b"]);
    let config = AiConfig::default();
    assert_eq!(backend.suggest_tags("", &config).unwrap(), vec!["a", "b"]);
    assert_eq!(backend.suggest_tags("", &config).unwrap(), vec!["a", "variant-1"]);
    assert_eq!(backend.suggest_tags("", &config).unwrap(), vec!["b", "variant-2"]);
}

#[test]
fn mock_summary_cuts_long_sentences() {
    let long = "x".repeat(150);
    let summary = MockBackend::summary_of(&long);
    assert_eq!(summary, format!("{}...", "x".repeat(100)));
    assert_eq!(MockBackend::summary_of("No terminator here"), "No terminator here");
    assert_eq!(MockBackend::summary_of("Why? Because."), "Why");
}

#[test]
fn mock_category_falls_back_to_general() {
    assert_eq!(MockBackend::category_of("A SCHEDULE for Monday"), "work");
    assert_eq!(MockBackend::category_of("Shopping list"), "shopping");
    assert_eq!(MockBackend::category_of("Programming notes"), "programming");
    assert_eq!(MockBackend::category_of("poem"), "general");
}

#[test]
fn simple_hash_is_djb2() {
    assert_eq!(MockBackend::simple_hash(""), 5381);
    assert_eq!(MockBackend::simple_hash("a"), 5381 * 33 + 97);
    assert_eq!(MockBackend::simple_hash("ab"), (5381 * 33 + 97) * 33 + 98);
}

#[test]
fn mock_embedding_values_are_thousandths_of_the_hash() {
    let e = MockBackend::embedding_of("test text");
    let h = MockBackend::simple_hash("test text");
    assert_eq!(e.len(), 384);
    for (i, v) in e.iter().enumerate() {
        assert_eq!(*v as u64, h.wrapping_add(i as u64) % 1000);
    }
}

#[test]
fn mock_backend_name() {
    assert_eq!(MockBackend::new().backend_name(), "mock");
    assert_eq!(MockBackend::default().backend_name(), "mock");
}
