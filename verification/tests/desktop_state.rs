use fastxt::desktop::{
    DesktopState, Effect, Message, RightPanel, SearchMode, SearchOutcome, SummaryOutcome,
    TagSuggestion,
};

fn fresh() -> DesktopState<u32> {
    DesktopState::<u32>::new().0
}

#[test]
fn window_opens_listing_recent_notes() {
    let (state, effect) = DesktopState::<u32>::new();
    assert_eq!(effect, Effect::RecentNotes);
    assert_eq!(state.ai_endpoint, "http://localhost:11434");
    assert_eq!(state.ai_model, "llama3.2");
    assert_eq!(state.notes_count, "0 notes");
    assert_eq!(state.categories_display, "Run 'Organize Notes' to categorize");
    assert_eq!(state.current_view, RightPanel::Form);
    assert!(!state.busy);
}

#[test]
fn save_requires_text_and_marks_busy() {
    let mut s = fresh();
    s.update(Message::ContentEdited("  \n ".to_string()));
    assert_eq!(s.update(Message::Save), Effect::Idle);
    assert_eq!(s.ai_status, "Enter some text first");
    assert!(!s.busy);
    s.update(Message::ContentEdited("hello".to_string()));
    assert_eq!(s.update(Message::Save), Effect::InsertNote);
    assert!(s.busy);
    assert_eq!(s.update(Message::Saved(Some(3))), Effect::Idle);
    assert!(!s.busy);
    assert_eq!(s.content, "");
    assert_eq!(s.ai_status, "Saved");
    s.update(Message::Saved(None));
    assert_eq!(s.ai_status, "Failed to save");
}

#[test]
fn ai_tags_round_trip() {
    let mut s = fresh();
    s.update(Message::ContentEdited("text".to_string()));
    assert_eq!(s.update(Message::RequestAiTags), Effect::SuggestTags);
    assert_eq!(s.ai_status, "Getting AI suggestions...");
    s.update(Message::AiTagsReady(TagSuggestion {
        tags: "a,b".to_string(),
        status: String::new(),
    }));
    assert!(!s.busy);
    assert_eq!(s.ai_suggested_tags, "a,b");
    s.update(Message::TagsChanged("x".to_string()));
    s.update(Message::UseAiTags);
    assert_eq!(s.tags, "x,a,b");
    assert_eq!(s.ai_suggested_tags, "");
    s.update(Message::AiTagsReady(TagSuggestion {
        tags: "c".to_string(),
        status: String::new(),
    }));
    s.update(Message::ReplaceAiTags);
    assert_eq!(s.tags, "c");
    assert_eq!(s.ai_suggested_tags, "");
}

#[test]
fn summary_and_clear() {
    let mut s = fresh();
    s.update(Message::ContentEdited("text".to_string()));
    assert_eq!(s.update(Message::RequestSummary), Effect::SummarizeNewNote);
    assert_eq!(s.ai_status, "Generating summary...");
    s.update(Message::SummaryReady(SummaryOutcome {
        summary: "short".to_string(),
        status: String::new(),
    }));
    assert_eq!(s.ai_summary, "short");
    s.update(Message::DismissSummary);
    assert_eq!(s.ai_summary, "");
    s.update(Message::TagsChanged("t".to_string()));
    s.update(Message::ClearForm);
    assert_eq!(s.content, "");
    assert_eq!(s.tags, "");
}

#[test]
fn search_modes() {
    let mut s = fresh();
    assert_eq!(s.update(Message::Search), Effect::Idle);
    assert!(!s.busy);
    s.update(Message::QueryChanged("rust".to_string()));
    assert_eq!(s.update(Message::Search), Effect::TextSearch);
    assert!(s.busy);
    s.update(Message::SearchReady(SearchOutcome {
        count_label: "2 notes found".to_string(),
        notes: vec![1, 2],
        status: String::new(),
    }));
    assert_eq!(s.notes, vec![1, 2]);
    assert_eq!(s.notes_count, "2 notes found");
    s.update(Message::SetSearchMode(SearchMode::Semantic));
    assert_eq!(s.update(Message::Search), Effect::SemanticSearch);
    assert_eq!(s.ai_status, "Searching...");
    s.update(Message::SearchReady(SearchOutcome {
        count_label: "0 similar notes".to_string(),
        notes: vec![],
        status: String::new(),
    }));
    assert_eq!(s.ai_status, "");
}

#[test]
fn navigation_sync_and_batches() {
    let mut s = fresh();
    s.update(Message::ShowSync);
    assert_eq!(s.current_view, RightPanel::Sync);
    s.update(Message::ShowAiSettings);
    assert_eq!(s.current_view, RightPanel::AiSettings);
    assert_eq!(s.update(Message::Sync), Effect::Idle);
    s.update(Message::RemoteAddrChanged("10.0.0.2:3456".to_string()));
    assert_eq!(s.update(Message::Sync), Effect::ClientSync);
    assert_eq!(s.sync_status, "Syncing...");
    s.update(Message::SyncReady("done".to_string()));
    assert_eq!(s.sync_status, "done");
    assert_eq!(s.update(Message::TagAll), Effect::TagAll);
    assert_eq!(s.ai_status, "Batch tagging notes...");
    assert_eq!(s.update(Message::EmbedAll), Effect::EmbedAll);
    assert_eq!(s.update(Message::Organize), Effect::Organize);
    assert_eq!(s.ai_status, "Organizing notes into categories...");
    s.update(Message::BatchReady("ok".to_string()));
    assert!(!s.busy);
    assert_eq!(s.update(Message::TestConnection), Effect::TestConnection);
    s.update(Message::TestConnectionReady("fine".to_string()));
    assert_eq!(s.ai_status, "fine");
    assert_eq!(s.update(Message::ToggleCategoryView), Effect::LoadCategories);
    assert!(s.busy);
    s.update(Message::CategoriesReady("cats".to_string()));
    assert_eq!(s.categories_display, "cats");
    assert_eq!(s.update(Message::ToggleCategoryView), Effect::Idle);
    assert!(!s.category_view);
    s.update(Message::ToggleServer);
    assert!(s.server_is_on);
    s.update(Message::EndpointChanged("http://h:1".to_string()));
    s.update(Message::ModelChanged("m".to_string()));
    assert_eq!(s.ai_endpoint, "http://h:1");
    assert_eq!(s.ai_model, "m");
    assert_eq!(s.update(Message::LoadCategories), Effect::LoadCategories);
    s.update(Message::ShowForm);
    assert_eq!(s.current_view, RightPanel::Form);
}
