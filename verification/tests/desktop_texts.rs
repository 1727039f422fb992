use fastxt::status::{
    batch_status, category_overview, client_sync_status, connection_status, note_date,
    note_display, organize_status, recent_outcome, semantic_search_outcome, summary_outcome,
    tag_suggestion, text_search_outcome, CategoryNote,
};

#[test]
fn note_date_keeps_the_day() {
    assert_eq!(note_date("2026-06-20 10:11:12"), "2026-06-20");
}

#[test]
fn note_date_of_an_empty_timestamp_is_empty() {
    assert_eq!(note_date(""), "");
}

#[test]
fn batch_status_reports_counts() {
    assert_eq!(batch_status(Some(3), Some(1), "", "Tagged"), "Tagged 3 notes (1 errors)");
}

#[test]
fn batch_status_surfaces_error() {
    assert_eq!(batch_status(None, None, "boom", "Tagged"), "Error: boom");
}

#[test]
fn batch_status_defaults() {
    assert_eq!(batch_status(Some(2), None, "", "Embedded"), "Embedded 2 notes (0 errors)");
    assert_eq!(batch_status(None, None, "", "Tagged"), "Failed: Tagged");
}

#[test]
fn organize_status_lists_categories() {
    let cats = vec![("work".to_string(), 2u64), ("idea".to_string(), 1u64)];
    assert_eq!(
        organize_status(Some(3), Some(0), &cats, ""),
        "Organized 3 notes (0 errors)\n  work: 2 notes\n  idea: 1 notes"
    );
    assert_eq!(organize_status(None, None, &vec![], ""), "Failed to organize notes");
    assert_eq!(organize_status(None, None, &vec![], "x"), "Error: x");
}

#[test]
fn status_lines() {
    assert_eq!(connection_status(true), "\u{2713} Connected to Ollama successfully!");
    assert_eq!(
        connection_status(false),
        "\u{2717} Could not connect to Ollama. Make sure it's running."
    );
    assert_eq!(client_sync_status(Some("sync ok".to_string()), ""), "\u{2713} sync ok");
    assert_eq!(client_sync_status(None, ""), "Sync failed");
    assert_eq!(client_sync_status(None, "e"), "Error: e");
}

#[test]
fn tag_and_summary_outcomes() {
    let t = tag_suggestion(Some(vec!["a".to_string(), "b".to_string()]), true, "");
    assert_eq!(t.tags, "a,b");
    assert_eq!(t.status, "");
    let t = tag_suggestion(Some(vec![]), false, "");
    assert_eq!(t.status, "AI not available. Check Ollama is running.");
    let t = tag_suggestion(None, false, "");
    assert_eq!(t.status, "Failed to parse AI response");
    let s = summary_outcome(true, Some("sum".to_string()), "");
    assert_eq!(s.summary, "sum");
    let s = summary_outcome(false, None, "");
    assert_eq!(s.status, "Failed to generate summary");
    let s = summary_outcome(true, None, "bad");
    assert_eq!(s.status, "Error: bad");
}

#[test]
fn search_outcome_labels() {
    assert_eq!(recent_outcome(None, vec![1u8, 2]).count_label, "2 notes");
    assert_eq!(recent_outcome(Some(7), vec![1u8]).count_label, "7 notes");
    assert_eq!(text_search_outcome(Some(4), vec![0u8]).count_label, "4 notes found");
    assert_eq!(text_search_outcome::<u8>(None, vec![]).count_label, "0 notes found");
    let o = semantic_search_outcome(Some(vec![1u8]), false, "");
    assert_eq!(o.count_label, "1 similar notes");
    assert_eq!(o.status, "AI not available for semantic search");
    let o = semantic_search_outcome::<u8>(None, true, "");
    assert_eq!(o.count_label, "0 notes");
    assert_eq!(o.status, "Search failed");
}

#[test]
fn note_display_formats() {
    assert_eq!(
        note_display(None, "hello", "a,b", "", "2026-01-02"),
        "hello\n[a,b]\n\u{1F4C5} 2026-01-02\n---"
    );
    assert_eq!(
        note_display(Some(42), "hi", "", "sum", "d"),
        "\u{1F50D} 42% similar\nhi\n[]\n\u{1F4DD} Summary: sum\n\u{1F4C5} d\n---"
    );
}

#[test]
fn category_overview_groups_sorted() {
    assert_eq!(
        category_overview(&vec![]),
        "No notes found. Run 'Organize Notes' to categorize."
    );
    let mut notes = vec![];
    for i in 0..7 {
        notes.push(CategoryNote {
            category: Some("work".to_string()),
            txt: format!("w{i}"),
        });
    }
    notes.push(CategoryNote {
        category: None,
        txt: "x".repeat(60),
    });
    notes.push(CategoryNote {
        category: Some("idea".to_string()),
        txt: "i".to_string(),
    });
    let shown = category_overview(&notes);
    let expected = format!(
        "\u{1F4C1} idea (1 notes)\n  \u{2022} i\n\n\u{1F4C1} uncategorized (1 notes)\n  \u{2022} {}\n\n\u{1F4C1} work (7 notes)\n  \u{2022} w0\n  \u{2022} w1\n  \u{2022} w2\n  \u{2022} w3\n  \u{2022} w4\n  ... and 2 more\n",
        "x".repeat(50)
    );
    assert_eq!(shown, expected);
}
