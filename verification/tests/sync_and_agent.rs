use fastxt::agent::{
    build_agent_tags, combined_text, list_topics, note_not_found_response, recall_fetch_limit,
    recall_keep, summarize_context_step, temp_summary_tags, topic_tag, ContextEvent, ContextStep,
};
use fastxt::sync::{
    diff_uuid4_from_server, diff_uuid4_to_server, embeddings_sync_outcome, invalid_addr_message,
    is_version_match, server_addr_of, shared_model, sync_outcome,
};
use fastxt::upgrade::{fits_vec_table, is_upgrading, migration_version_text, pending_migrations, Migration};

fn v(items: &[&str]) -> Vec<String> {
    items.iter().map(|s| s.to_string()).collect()
}

#[test]
fn test_sync_diff_uuid4() {
    let missing = diff_uuid4_to_server(&v(&["uuid1", "uuid3"]), &v(&["uuid1", "uuid2"]));
    assert_eq!(missing, v(&["uuid3"]));
    let from = diff_uuid4_from_server(&v(&["uuid1", "uuid2"]), &v(&["uuid1"]));
    assert_eq!(from, v(&["uuid2"]));
}

#[test]
fn test_sync_diff_to_server_all_known() {
    let missing = diff_uuid4_to_server(&v(&["u"]), &v(&["u"]));
    assert!(missing.is_empty());
}

#[test]
fn test_sync_diff_to_server_empty_candidates() {
    let missing = diff_uuid4_to_server(&vec![], &v(&["local"]));
    assert!(missing.is_empty());
}

#[test]
fn test_sync_diff_from_server_all_present() {
    let to_pull = diff_uuid4_from_server(&v(&["shared"]), &v(&["shared"]));
    assert!(to_pull.is_empty());
}

#[test]
fn test_sync_diff_from_server_empty_server_list() {
    let to_pull = diff_uuid4_from_server(&v(&["local"]), &vec![]);
    assert_eq!(to_pull, v(&["local"]));
}

#[test]
fn sync_reports() {
    assert_eq!(sync_outcome(None, None), Ok("sync ok".to_string()));
    assert_eq!(
        sync_outcome(Some("a".to_string()), Some("b".to_string())),
        Err("sync-to-server: a; sync-from-server: b".to_string())
    );
    assert_eq!(
        sync_outcome(None, Some("b".to_string())),
        Err("sync-from-server: b".to_string())
    );
    assert_eq!(embeddings_sync_outcome(None), Ok("sync_embeddings ok".to_string()));
    assert_eq!(
        embeddings_sync_outcome(Some("x".to_string())),
        Err("sync_embeddings error: x".to_string())
    );
    assert_eq!(invalid_addr_message("bad", "e"), "server_addr bad invalid: e");
    assert!(is_version_match("0.5.0", "0.5.0"));
    assert!(!is_version_match("0.4.0", "0.5.0"));
}

#[test]
fn embeddings_sync_needs_the_same_model() {
    assert_eq!(shared_model(Some("m".to_string()), Some("m".to_string())), Some("m".to_string()));
    assert_eq!(shared_model(Some("m".to_string()), Some("n".to_string())), None);
    assert_eq!(shared_model(None, Some("n".to_string())), None);
}

#[test]
fn server_address_skips_loopback() {
    let ifaces = vec![(true, "127.0.0.1".to_string()), (false, "192.168.1.5".to_string())];
    assert_eq!(server_addr_of(&ifaces), "192.168.1.5:3456");
    assert_eq!(server_addr_of(&vec![(true, "::1".to_string())]), "");
}

#[test]
fn upgrade_plans() {
    assert_eq!(
        pending_migrations("0.0.0"),
        vec![
            Migration::MarkV010,
            Migration::AddAiColumns,
            Migration::AddVecNotes,
            Migration::AiTagsToJsonb,
            Migration::AddFts5
        ]
    );
    assert_eq!(pending_migrations("0.3.0"), vec![Migration::AiTagsToJsonb, Migration::AddFts5]);
    assert_eq!(pending_migrations("0.5.0-rc.1"), vec![Migration::AddFts5]);
    assert_eq!(pending_migrations("0.5.0"), vec![]);
    assert_eq!(pending_migrations("1.0.0+build"), vec![]);
    assert_eq!(pending_migrations("garbage").len(), 5);
    assert_eq!(migration_version_text(Migration::AddVecNotes), "0.3.0");
    assert!(is_upgrading(Some("1")));
    assert!(!is_upgrading(Some("0")));
    assert!(!is_upgrading(None));
    assert!(fits_vec_table(1536));
    assert!(!fits_vec_table(1532));
}

#[test]
fn agent_tags_and_recall() {
    assert_eq!(
        build_agent_tags(Some("x,y"), Some("bot"), Some("rust"), None),
        "agent:bot,topic:rust,importance:medium,x,y"
    );
    assert_eq!(build_agent_tags(None, Some(""), None, Some("high")), "importance:high");
    let tags = v(&["agent:bot,topic:rust", "agent:other,topic:rust", "agent:bot"]);
    assert_eq!(recall_keep(&tags, Some("bot"), None, 10), vec![0, 2]);
    assert_eq!(recall_keep(&tags, Some("bot"), Some("rust"), 10), vec![0]);
    assert_eq!(recall_keep(&tags, None, None, 1), vec![0]);
    assert_eq!(recall_keep(&tags, None, None, -1), vec![0, 1, 2]);
    assert_eq!(recall_fetch_limit(None), 50);
    assert_eq!(recall_fetch_limit(Some(2)), 10);
    assert_eq!(topic_tag("rust"), "topic:rust");
    assert_eq!(temp_summary_tags("rust"), "_temp_summary,topic:rust");
    assert_eq!(combined_text(&v(&["a", "b"])), "a\n\n---\n\nb");
    assert_eq!(
        note_not_found_response(4),
        r#"{"error":"Note with rowid 4 not found"}"#
    );
}

#[test]
fn topics_are_counted_most_used_first() {
    let rows = v(&["topic:a, x", " topic:b ,topic:", "topic:b", "topic:c,topic:a"]);
    assert_eq!(
        list_topics(&rows),
        vec![("a".to_string(), 2), ("b".to_string(), 2), ("c".to_string(), 1)]
    );
}

fn answer_of(step: ContextStep) -> String {
    match step {
        ContextStep::Answer(a) => a,
        _ => panic!("expected an answer"),
    }
}

fn json_object(fields: Vec<(&str, serde_json::Value)>) -> String {
    let mut map = serde_json::Map::new();
    for (k, v) in fields {
        map.insert(k.to_string(), v);
    }
    serde_json::Value::Object(map).to_string()
}

#[test]
fn summarizing_a_topic_goes_step_by_step() {
    match summarize_context_step("rust", None, ContextEvent::Begun) {
        ContextStep::Search { query, limit } => {
            assert_eq!(query, "topic:rust");
            assert_eq!(limit, 20);
        }
        _ => panic!("expected a search"),
    }
    match summarize_context_step("rust", Some(3), ContextEvent::Found { count: 2, texts: v(&["a", "b"]) }) {
        ContextStep::Insert { txt, tags } => {
            assert_eq!(txt, "a\n\n---\n\nb");
            assert_eq!(tags, "_temp_summary,topic:rust");
        }
        _ => panic!("expected an insert"),
    }
    match summarize_context_step("rust", None, ContextEvent::Inserted { count: 2, rowid: 7 }) {
        ContextStep::Summarize { rowid } => assert_eq!(rowid, 7),
        _ => panic!("expected a summary request"),
    }
    match summarize_context_step("rust", None, ContextEvent::Summarized { count: 2, rowid: 7, summary: "s".to_string() }) {
        ContextStep::Delete { rowid } => assert_eq!(rowid, 7),
        _ => panic!("expected a delete"),
    }
}

#[test]
fn topic_summary_answers_match_serde_json() {
    let none = answer_of(summarize_context_step("r\"s", None, ContextEvent::Found { count: 0, texts: vec![] }));
    assert_eq!(
        none,
        json_object(vec![
            ("summary", serde_json::Value::Null),
            ("note_count", serde_json::Value::from(0)),
            ("topic", serde_json::Value::from("r\"s")),
            ("error", serde_json::Value::from("No memories found for this topic")),
        ])
    );
    let failed = answer_of(summarize_context_step("rust", None, ContextEvent::Inserted { count: 2, rowid: -1 }));
    assert_eq!(
        failed,
        json_object(vec![("error", serde_json::Value::from("Failed to create temporary note for summarization"))])
    );
    let done = answer_of(summarize_context_step(
        "rust",
        None,
        ContextEvent::Deleted { count: 2, summary: "line\none \u{1}".to_string() },
    ));
    assert_eq!(
        done,
        json_object(vec![
            ("summary", serde_json::Value::from("line\none \u{1}")),
            ("note_count", serde_json::Value::from(2usize)),
            ("topic", serde_json::Value::from("rust")),
        ])
    );
}
