use fastxt::actions::{
    batch_limit, config_for, count_by_category, do_ai_embed, do_ai_embed_all, do_ai_organize,
    do_ai_reprocess, do_ai_summarize, do_ai_tag, do_ai_tag_all, embed_response, model_id_of,
    summary_response, tags_response, tally_organize, AiField,
};
use fastxt::ai::AiError;
use fastxt::mock::MockBackend;
use fastxt::types::{CmdAiEmbed, CmdAiEmbedAll, CmdAiOrganize, CmdAiSummarize, CmdAiTag, CmdAiTagAll, Note};

fn note(rowid: i64, txt: &str) -> Note {
    Note {
        rowid,
        uuid4: format!("u{rowid}"),
        txt: txt.to_string(),
        tags: String::new(),
        created_at: String::new(),
        ai_tags: None,
        ai_summary: None,
        ai_category: None,
    }
}

#[test]
fn config_for_keeps_endpoint_and_model() {
    let c = config_for(&Some("http://h".to_string()), &None);
    assert_eq!(c.endpoint, Some("http://h".to_string()));
    assert_eq!(c.model, None);
    assert_eq!(c.max_tokens, Some(256));
    assert_eq!(model_id_of(&c), "unknown");
    assert_eq!(batch_limit(None), 50);
    assert_eq!(batch_limit(Some(5)), 5);
}

#[test]
fn tag_request_answers() {
    let cmd = CmdAiTag { text: "Hello World".to_string(), endpoint: None, model: None };
    let r = do_ai_tag(&MockBackend::with_tags(vec!["t"]), &cmd);
    assert!(r.available);
    assert_eq!(r.tags, vec!["hello", "t", "world"]);
    assert_eq!(r.error, None);
    let r = do_ai_tag(&MockBackend::unavailable(), &cmd);
    assert!(!r.available);
    assert_eq!(
        r.error,
        Some("AI backend not available. Make sure Ollama is running.".to_string())
    );
    let r = tags_response(Err(AiError::Timeout));
    assert_eq!(r.error, Some("Request timed out".to_string()));
    assert!(r.tags.is_empty());
}

#[test]
fn summary_request_answers() {
    let cmd = CmdAiSummarize { rowid: 9, endpoint: None, model: None };
    let (r, stored) = do_ai_summarize(&MockBackend::new(), &cmd, Some("One. Two.".to_string()));
    assert_eq!(r.summary, Some("One".to_string()));
    assert_eq!(stored, Some("One".to_string()));
    let (r, stored) = do_ai_summarize(&MockBackend::new(), &cmd, None);
    assert_eq!(r.error, Some("Note with rowid 9 not found".to_string()));
    assert_eq!(stored, None);
    let r = summary_response(-3, None);
    assert_eq!(r.error, Some("Note with rowid -3 not found".to_string()));
}

#[test]
fn embed_request_answers() {
    let cmd = CmdAiEmbed { rowid: 1, endpoint: None, model: Some("m".to_string()) };
    let (r, stored) = do_ai_embed(&MockBackend::new(), &cmd, Some("t".to_string()));
    assert!(r.success);
    let (e, model) = stored.unwrap();
    assert_eq!(e.len(), 384);
    assert_eq!(model, "m");
    let (r, stored) = do_ai_embed(&MockBackend::unavailable(), &cmd, Some("t".to_string()));
    assert!(!r.available && !r.success && stored.is_none());
    let (r, stored) = embed_response::<u8>(5, Some(Err(AiError::InputTooLong)));
    assert_eq!(r.error, Some("Input text is too long".to_string()));
    assert!(stored.is_none());
}

#[test]
fn batch_tagging_tallies() {
    let cmd = CmdAiTagAll { limit: None, endpoint: None, model: None };
    let notes = vec![note(1, "Alpha text"), note(2, "beta")];
    let (text, updates) = do_ai_tag_all(&MockBackend::with_tags(vec!["x"]), &cmd, &notes);
    assert_eq!(text, r#"{"processed":2,"errors":0,"message":"Batch tagging complete"}"#);
    assert_eq!(updates, vec![(1, r#"["alpha","x"]"#.to_string()), (2, r#"["x"]"#.to_string())]);
    let (text, _) = do_ai_tag_all(&MockBackend::new(), &cmd, &vec![]);
    assert_eq!(text, r#"{"processed":0,"message":"No notes without AI tags"}"#);
    let (text, _) = do_ai_tag_all(&MockBackend::unavailable(), &cmd, &notes);
    assert_eq!(
        text,
        r#"{"error":"AI backend not available. Make sure Ollama is running."}"#
    );
}

#[test]
fn batch_embedding_tallies() {
    let cmd = CmdAiEmbedAll { limit: Some(3), endpoint: None, model: None };
    let notes = vec![note(4, "a"), note(5, "b")];
    let (text, model, updates) = do_ai_embed_all(&MockBackend::new(), &cmd, &notes);
    assert_eq!(text, r#"{"processed":2,"errors":0,"message":"Batch embedding complete"}"#);
    assert_eq!(model, "unknown");
    assert_eq!(updates.len(), 2);
    assert_eq!(updates[1].0, 5);
    let (text, _, _) = do_ai_embed_all(&MockBackend::new(), &cmd, &vec![]);
    assert_eq!(text, r#"{"processed":0,"message":"No notes without embeddings"}"#);
}

#[test]
fn reprocess_updates_tags_then_summary() {
    let notes = vec![(3i64, "First. Second.".to_string())];
    let (text, updates) = do_ai_reprocess(&MockBackend::with_tags(vec!["k"]), Ok(notes));
    assert_eq!(text, r#"{"processed":1,"errors":0,"message":"AI reprocessing complete"}"#);
    assert_eq!(updates.len(), 2);
    assert_eq!(updates[0].field, AiField::Tags);
    assert_eq!(updates[0].value, r#"["first","k","second"]"#);
    assert_eq!(updates[1].field, AiField::Summary);
    assert_eq!(updates[1].value, "First");
    let (text, updates) = do_ai_reprocess(&MockBackend::new(), Err(12));
    assert_eq!(text, r#"{"error":"Note 12 not found"}"#);
    assert!(updates.is_empty());
}

#[test]
fn organize_counts_categories() {
    let cmd = CmdAiOrganize { limit: None, endpoint: None, model: None };
    let notes: Vec<(i64, String)> = (0..12)
        .map(|i| (i as i64, if i % 2 == 0 { "code".to_string() } else { "buy".to_string() }))
        .collect();
    let (resp, updates) = do_ai_organize(&MockBackend::new(), &cmd, &notes);
    assert!(resp.available);
    assert_eq!(resp.processed, 12);
    assert_eq!(resp.errors, 0);
    assert_eq!(resp.error, None);
    assert_eq!(
        resp.categories,
        vec![("programming".to_string(), 6), ("shopping".to_string(), 6)]
    );
    assert_eq!(updates[11], (11, "shopping".to_string()));
    let (resp, _) = do_ai_organize(&MockBackend::new(), &cmd, &vec![]);
    assert_eq!(resp.error, Some("No notes to categorize".to_string()));
}

#[test]
fn organize_tally_gives_each_batch_its_own_notes() {
    let notes: Vec<(i64, String)> = (0..12).map(|i| (100 + i as i64, String::new())).collect();
    let outcomes = vec![None, Some(vec!["a".to_string(), "b".to_string()])];
    let (processed, errors, updates) = tally_organize(&notes, &outcomes);
    assert_eq!(processed, 2);
    assert_eq!(errors, 10);
    assert_eq!(updates, vec![(110, "a".to_string()), (111, "b".to_string())]);
}

#[test]
fn counting_categories() {
    let cats: Vec<String> = ["b", "a", "b"].iter().map(|s| s.to_string()).collect();
    assert_eq!(count_by_category(&cats), vec![("b".to_string(), 2), ("a".to_string(), 1)]);
}
