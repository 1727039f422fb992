//! The desktop application's state machine: what each user action or
//! finished background command does to the window's state, and which
//! background command it starts.
//!
//! The window toolkit only renders this state and runs the commands; the
//! note cards it shows are a type of its own, `N`.
use crate::text::{chars_of, trim_chars, trim_start, trim_ws, white_space};
use vstd::prelude::*;

verus! {

/// Which screen the right-hand panel shows.
#[derive(Debug, Clone, Copy, PartialEq, Eq, Structural)]
pub enum RightPanel {
    Form,
    Sync,
    AiSettings,
}

/// Search backend selector.
#[derive(Debug, Clone, Copy, PartialEq, Eq, Structural)]
pub enum SearchMode {
    Text,
    Semantic,
}

/// AI tag suggestion plus a human-readable status line.
#[derive(Debug, Clone)]
pub struct TagSuggestion {
    pub tags: String,
    pub status: String,
}

/// AI summary plus a human-readable status line.
#[derive(Debug, Clone)]
pub struct SummaryOutcome {
    pub summary: String,
    pub status: String,
}

/// Result of a search / list operation.
pub struct SearchOutcome<N> {
    pub count_label: String,
    pub notes: Vec<N>,
    /// Non-empty when the backend reported a problem (e.g. AI unavailable).
    pub status: String,
}

/// The background command an update starts; its arguments are read from
/// the state the update leaves.
#[derive(Debug, Clone, Copy, PartialEq, Eq, Structural)]
pub enum Effect {
    /// Nothing to run.
    Idle,
    /// List the most recent notes (a page of 50 from the start).
    RecentNotes,
    /// Group the notes by category for display.
    LoadCategories,
    /// Insert the note being edited (content and tags).
    InsertNote,
    /// Ask the AI for tags for the content.
    SuggestTags,
    /// Insert the note, then ask the AI to summarize it.
    SummarizeNewNote,
    /// Keyword search for the query (a page of 50 from the start).
    TextSearch,
    /// Semantic search for the query.
    SemanticSearch,
    /// Sync with the server at the remote address.
    ClientSync,
    /// Probe the AI endpoint.
    TestConnection,
    /// Tag every untagged note.
    TagAll,
    /// Embed every note without an embedding.
    EmbedAll,
    /// Categorize the notes.
    Organize,
}

/// A user action, or the result of a background command.
pub enum Message<N> {
    ShowForm,
    ShowSync,
    ShowAiSettings,
    SetSearchMode(SearchMode),
    ToggleCategoryView,
    /// The editor now holds this text.
    ContentEdited(String),
    TagsChanged(String),
    QueryChanged(String),
    RemoteAddrChanged(String),
    EndpointChanged(String),
    ModelChanged(String),
    ClearForm,
    Save,
    Saved(Option<i64>),
    RequestAiTags,
    AiTagsReady(TagSuggestion),
    RequestSummary,
    SummaryReady(SummaryOutcome),
    UseAiTags,
    ReplaceAiTags,
    DismissSummary,
    Search,
    SearchReady(SearchOutcome<N>),
    ToggleServer,
    Sync,
    SyncReady(String),
    TestConnection,
    TestConnectionReady(String),
    TagAll,
    EmbedAll,
    Organize,
    BatchReady(String),
    LoadCategories,
    CategoriesReady(String),
}

/// The state of the desktop window.
pub struct DesktopState<N> {
    /// The text in the note editor.
    pub content: String,
    pub tags: String,
    pub query: String,
    pub current_view: RightPanel,
    pub search_mode: SearchMode,
    pub category_view: bool,
    pub server_is_on: bool,
    pub remote_addr: String,
    pub sync_status: String,
    pub ai_endpoint: String,
    pub ai_model: String,
    pub ai_suggested_tags: String,
    pub ai_summary: String,
    pub ai_status: String,
    pub notes_count: String,
    pub notes: Vec<N>,
    pub categories_display: String,
    /// True while a background command is running; disables action buttons.
    pub busy: bool,
}

/// The state of the desktop window, its texts as character sequences.
#[verifier::ext_equal]
pub struct DesktopModel<N> {
    pub content: Seq<char>,
    pub tags: Seq<char>,
    pub query: Seq<char>,
    pub current_view: RightPanel,
    pub search_mode: SearchMode,
    pub category_view: bool,
    pub server_is_on: bool,
    pub remote_addr: Seq<char>,
    pub sync_status: Seq<char>,
    pub ai_endpoint: Seq<char>,
    pub ai_model: Seq<char>,
    pub ai_suggested_tags: Seq<char>,
    pub ai_summary: Seq<char>,
    pub ai_status: Seq<char>,
    pub notes_count: Seq<char>,
    pub notes: Seq<N>,
    pub categories_display: Seq<char>,
    pub busy: bool,
}

impl<N> View for DesktopState<N> {
    type V = DesktopModel<N>;

    open spec fn view(&self) -> DesktopModel<N> {
        DesktopModel {
            content: self.content@,
            tags: self.tags@,
            query: self.query@,
            current_view: self.current_view,
            search_mode: self.search_mode,
            category_view: self.category_view,
            server_is_on: self.server_is_on,
            remote_addr: self.remote_addr@,
            sync_status: self.sync_status@,
            ai_endpoint: self.ai_endpoint@,
            ai_model: self.ai_model@,
            ai_suggested_tags: self.ai_suggested_tags@,
            ai_summary: self.ai_summary@,
            ai_status: self.ai_status@,
            notes_count: self.notes_count@,
            notes: self.notes@,
            categories_display: self.categories_display@,
            busy: self.busy,
        }
    }
}

/// The state the window opens with.
pub open spec fn initial_model<N>() -> DesktopModel<N> {
    DesktopModel {
        content: seq![],
        tags: seq![],
        query: seq![],
        current_view: RightPanel::Form,
        search_mode: SearchMode::Text,
        category_view: false,
        server_is_on: false,
        remote_addr: seq![],
        sync_status: seq![],
        ai_endpoint: "http://localhost:11434"@,
        ai_model: "llama3.2"@,
        ai_suggested_tags: seq![],
        ai_summary: seq![],
        ai_status: seq![],
        notes_count: "0 notes"@,
        notes: seq![],
        categories_display: "Run 'Organize Notes' to categorize"@,
        busy: false,
    }
}

/// Whether the editor holds nothing but white space.
pub open spec fn blank(s: Seq<char>) -> bool {
    trim_ws(s).len() == 0
}

/// The message a user gets for an action that needs text.
pub open spec fn need_text() -> Seq<char> {
    "Enter some text first"@
}

/// The state after a message.
pub open spec fn next_model<N>(s: DesktopModel<N>, m: Message<N>) -> DesktopModel<N> {
    match m {
        Message::ShowForm => DesktopModel { current_view: RightPanel::Form, ..s },
        Message::ShowSync => DesktopModel { current_view: RightPanel::Sync, ..s },
        Message::ShowAiSettings => DesktopModel { current_view: RightPanel::AiSettings, ..s },
        Message::SetSearchMode(mode) => DesktopModel { search_mode: mode, ..s },
        Message::ToggleCategoryView => if !s.category_view {
            DesktopModel { category_view: true, busy: true, ..s }
        } else {
            DesktopModel { category_view: false, ..s }
        },
        Message::ContentEdited(t) => DesktopModel { content: t@, ..s },
        Message::TagsChanged(t) => DesktopModel { tags: t@, ..s },
        Message::QueryChanged(t) => DesktopModel { query: t@, ..s },
        Message::RemoteAddrChanged(t) => DesktopModel { remote_addr: t@, ..s },
        Message::EndpointChanged(t) => DesktopModel { ai_endpoint: t@, ..s },
        Message::ModelChanged(t) => DesktopModel { ai_model: t@, ..s },
        Message::ClearForm => DesktopModel {
            content: seq![],
            tags: seq![],
            ai_suggested_tags: seq![],
            ai_status: seq![],
            ai_summary: seq![],
            ..s
        },
        Message::Save => if blank(s.content) {
            DesktopModel { ai_status: need_text(), ..s }
        } else {
            DesktopModel { busy: true, ..s }
        },
        Message::Saved(rowid) => match rowid {
            Some(_) => DesktopModel {
                busy: false,
                content: seq![],
                tags: seq![],
                ai_suggested_tags: seq![],
                ai_summary: seq![],
                ai_status: "Saved"@,
                ..s
            },
            None => DesktopModel { busy: false, ai_status: "Failed to save"@, ..s },
        },
        Message::RequestAiTags => if blank(s.content) {
            DesktopModel { ai_status: need_text(), ..s }
        } else {
            DesktopModel { busy: true, ai_status: "Getting AI suggestions..."@, ..s }
        },
        Message::AiTagsReady(t) => DesktopModel {
            busy: false,
            ai_suggested_tags: t.tags@,
            ai_status: t.status@,
            ..s
        },
        Message::RequestSummary => if blank(s.content) {
            DesktopModel { ai_status: need_text(), ..s }
        } else {
            DesktopModel { busy: true, ai_status: "Generating summary..."@, ..s }
        },
        Message::SummaryReady(o) => DesktopModel {
            busy: false,
            ai_summary: o.summary@,
            ai_status: o.status@,
            ..s
        },
        Message::UseAiTags => DesktopModel {
            tags: if s.tags.len() == 0 {
                s.ai_suggested_tags
            } else {
                s.tags + seq![','] + s.ai_suggested_tags
            },
            ai_suggested_tags: seq![],
            ..s
        },
        Message::ReplaceAiTags => DesktopModel {
            tags: s.ai_suggested_tags,
            ai_suggested_tags: seq![],
            ..s
        },
        Message::DismissSummary => DesktopModel { ai_summary: seq![], ..s },
        Message::Search => if s.query.len() == 0 {
            s
        } else if s.search_mode == SearchMode::Text {
            DesktopModel { busy: true, ..s }
        } else {
            DesktopModel { busy: true, ai_status: "Searching..."@, ..s }
        },
        Message::SearchReady(o) => DesktopModel {
            busy: false,
            notes_count: o.count_label@,
            notes: o.notes@,
            ai_status: o.status@,
            ..s
        },
        Message::ToggleServer => DesktopModel { server_is_on: !s.server_is_on, ..s },
        Message::Sync => if s.remote_addr.len() == 0 {
            s
        } else {
            DesktopModel { busy: true, sync_status: "Syncing..."@, ..s }
        },
        Message::SyncReady(t) => DesktopModel { busy: false, sync_status: t@, ..s },
        Message::TestConnection => DesktopModel {
            busy: true,
            ai_status: "Testing connection..."@,
            ..s
        },
        Message::TestConnectionReady(t) => DesktopModel { busy: false, ai_status: t@, ..s },
        Message::TagAll => DesktopModel { busy: true, ai_status: "Batch tagging notes..."@, ..s },
        Message::EmbedAll => DesktopModel {
            busy: true,
            ai_status: "Batch embedding notes..."@,
            ..s
        },
        Message::Organize => DesktopModel {
            busy: true,
            ai_status: "Organizing notes into categories..."@,
            ..s
        },
        Message::BatchReady(t) => DesktopModel { busy: false, ai_status: t@, ..s },
        Message::LoadCategories => DesktopModel { busy: true, ..s },
        Message::CategoriesReady(t) => DesktopModel {
            busy: false,
            categories_display: t@,
            ..s
        },
    }
}

/// The background command a message starts.
pub open spec fn effect_of<N>(s: DesktopModel<N>, m: Message<N>) -> Effect {
    match m {
        Message::ToggleCategoryView => if !s.category_view {
            Effect::LoadCategories
        } else {
            Effect::Idle
        },
        Message::Save => if blank(s.content) {
            Effect::Idle
        } else {
            Effect::InsertNote
        },
        Message::RequestAiTags => if blank(s.content) {
            Effect::Idle
        } else {
            Effect::SuggestTags
        },
        Message::RequestSummary => if blank(s.content) {
            Effect::Idle
        } else {
            Effect::SummarizeNewNote
        },
        Message::Search => if s.query.len() == 0 {
            Effect::Idle
        } else if s.search_mode == SearchMode::Text {
            Effect::TextSearch
        } else {
            Effect::SemanticSearch
        },
        Message::Sync => if s.remote_addr.len() == 0 {
            Effect::Idle
        } else {
            Effect::ClientSync
        },
        Message::TestConnection => Effect::TestConnection,
        Message::TagAll => Effect::TagAll,
        Message::EmbedAll => Effect::EmbedAll,
        Message::Organize => Effect::Organize,
        Message::LoadCategories => Effect::LoadCategories,
        _ => Effect::Idle,
    }
}

/// Whether a message reports the end of a background command.
pub open spec fn is_completion<N>(m: Message<N>) -> bool {
    match m {
        Message::Saved(_) => true,
        Message::AiTagsReady(_) => true,
        Message::SummaryReady(_) => true,
        Message::SearchReady(_) => true,
        Message::SyncReady(_) => true,
        Message::TestConnectionReady(_) => true,
        Message::BatchReady(_) => true,
        Message::CategoriesReady(_) => true,
        _ => false,
    }
}

fn is_blank(s: &String) -> (r: bool)
    ensures
        r == blank(s@),
{
    trim_chars(&chars_of(s.as_str())).len() == 0
}

impl<N> DesktopState<N> {
    /// The window's state at start-up, and the command that fills the list
    /// with the most recent notes.
    pub fn new() -> (r: (Self, Effect))
        ensures
            r.0@ == initial_model::<N>(),
            r.1 == Effect::RecentNotes,
    {
        let state = DesktopState {
            content: String::new(),
            tags: String::new(),
            query: String::new(),
            current_view: RightPanel::Form,
            search_mode: SearchMode::Text,
            category_view: false,
            server_is_on: false,
            remote_addr: String::new(),
            sync_status: String::new(),
            ai_endpoint: String::from_str("http://localhost:11434"),
            ai_model: String::from_str("llama3.2"),
            ai_suggested_tags: String::new(),
            ai_summary: String::new(),
            ai_status: String::new(),
            notes_count: String::from_str("0 notes"),
            notes: Vec::new(),
            categories_display: String::from_str("Run 'Organize Notes' to categorize"),
            busy: false,
        };
        assert(state@.notes =~= Seq::<N>::empty());
        (state, Effect::RecentNotes)
    }

    /// Apply one message: the state changes as `next_model` says and the
    /// command `effect_of` names is to be started.
    pub fn update(&mut self, message: Message<N>) -> (r: Effect)
        ensures
            final(self)@ == next_model(old(self)@, message),
            r == effect_of(old(self)@, message),
    {
        match message {
            Message::ShowForm => {
                self.current_view = RightPanel::Form;
                Effect::Idle
            },
            Message::ShowSync => {
                self.current_view = RightPanel::Sync;
                Effect::Idle
            },
            Message::ShowAiSettings => {
                self.current_view = RightPanel::AiSettings;
                Effect::Idle
            },
            Message::SetSearchMode(mode) => {
                self.search_mode = mode;
                Effect::Idle
            },
            Message::ToggleCategoryView => {
                self.category_view = !self.category_view;
                if self.category_view {
                    self.busy = true;
                    Effect::LoadCategories
                } else {
                    Effect::Idle
                }
            },
            Message::ContentEdited(t) => {
                self.content = t;
                Effect::Idle
            },
            Message::TagsChanged(t) => {
                self.tags = t;
                Effect::Idle
            },
            Message::QueryChanged(t) => {
                self.query = t;
                Effect::Idle
            },
            Message::RemoteAddrChanged(t) => {
                self.remote_addr = t;
                Effect::Idle
            },
            Message::EndpointChanged(t) => {
                self.ai_endpoint = t;
                Effect::Idle
            },
            Message::ModelChanged(t) => {
                self.ai_model = t;
                Effect::Idle
            },
            Message::ClearForm => {
                self.content = String::new();
                self.tags = String::new();
                self.ai_suggested_tags = String::new();
                self.ai_status = String::new();
                self.ai_summary = String::new();
                Effect::Idle
            },
            Message::Save => {
                if is_blank(&self.content) {
                    self.ai_status = String::from_str("Enter some text first");
                    return Effect::Idle;
                }
                self.busy = true;
                Effect::InsertNote
            },
            Message::Saved(rowid) => {
                self.busy = false;
                if rowid.is_some() {
                    self.content = String::new();
                    self.tags = String::new();
                    self.ai_suggested_tags = String::new();
                    self.ai_summary = String::new();
                    self.ai_status = String::from_str("Saved");
                } else {
                    self.ai_status = String::from_str("Failed to save");
                }
                Effect::Idle
            },
            Message::RequestAiTags => {
                if is_blank(&self.content) {
                    self.ai_status = String::from_str("Enter some text first");
                    return Effect::Idle;
                }
                self.busy = true;
                self.ai_status = String::from_str("Getting AI suggestions...");
                Effect::SuggestTags
            },
            Message::AiTagsReady(suggestion) => {
                self.busy = false;
                self.ai_suggested_tags = suggestion.tags;
                self.ai_status = suggestion.status;
                Effect::Idle
            },
            Message::RequestSummary => {
                if is_blank(&self.content) {
                    self.ai_status = String::from_str("Enter some text first");
                    return Effect::Idle;
                }
                self.busy = true;
                self.ai_status = String::from_str("Generating summary...");
                Effect::SummarizeNewNote
            },
            Message::SummaryReady(outcome) => {
                self.busy = false;
                self.ai_summary = outcome.summary;
                self.ai_status = outcome.status;
                Effect::Idle
            },
            Message::UseAiTags => {
                if self.tags.as_str().is_empty() {
                    self.tags = self.ai_suggested_tags.clone();
                } else {
                    let mut joined = self.tags.clone();
                    joined.append(",");
                    joined.append(self.ai_suggested_tags.as_str());
                    proof {
                        reveal_strlit(",");
                    }
                    self.tags = joined;
                }
                self.ai_suggested_tags = String::new();
                Effect::Idle
            },
            Message::ReplaceAiTags => {
                let taken = self.ai_suggested_tags.clone();
                self.ai_suggested_tags = String::new();
                self.tags = taken;
                Effect::Idle
            },
            Message::DismissSummary => {
                self.ai_summary = String::new();
                Effect::Idle
            },
            Message::Search => {
                if self.query.as_str().is_empty() {
                    return Effect::Idle;
                }
                self.busy = true;
                match self.search_mode {
                    SearchMode::Text => Effect::TextSearch,
                    SearchMode::Semantic => {
                        self.ai_status = String::from_str("Searching...");
                        Effect::SemanticSearch
                    },
                }
            },
            Message::SearchReady(outcome) => {
                self.busy = false;
                self.notes_count = outcome.count_label;
                self.notes = outcome.notes;
                self.ai_status = outcome.status;
                Effect::Idle
            },
            Message::ToggleServer => {
                self.server_is_on = !self.server_is_on;
                Effect::Idle
            },
            Message::Sync => {
                if self.remote_addr.as_str().is_empty() {
                    return Effect::Idle;
                }
                self.busy = true;
                self.sync_status = String::from_str("Syncing...");
                Effect::ClientSync
            },
            Message::SyncReady(status) => {
                self.busy = false;
                self.sync_status = status;
                Effect::Idle
            },
            Message::TestConnection => {
                self.busy = true;
                self.ai_status = String::from_str("Testing connection...");
                Effect::TestConnection
            },
            Message::TestConnectionReady(status) => {
                self.busy = false;
                self.ai_status = status;
                Effect::Idle
            },
            Message::TagAll => {
                self.busy = true;
                self.ai_status = String::from_str("Batch tagging notes...");
                Effect::TagAll
            },
            Message::EmbedAll => {
                self.busy = true;
                self.ai_status = String::from_str("Batch embedding notes...");
                Effect::EmbedAll
            },
            Message::Organize => {
                self.busy = true;
                self.ai_status = String::from_str("Organizing notes into categories...");
                Effect::Organize
            },
            Message::BatchReady(status) => {
                self.busy = false;
                self.ai_status = status;
                Effect::Idle
            },
            Message::LoadCategories => {
                self.busy = true;
                Effect::LoadCategories
            },
            Message::CategoriesReady(display) => {
                self.busy = false;
                self.categories_display = display;
                Effect::Idle
            },
        }
    }
}

// ----------------------------------------------------------------------------
// Laws of the state machine.
// ----------------------------------------------------------------------------

/// A finished background command always clears the busy flag.
pub proof fn law_completion_clears_busy<N>(s: DesktopModel<N>, m: Message<N>)
    requires
        is_completion(m),
    ensures
        !next_model(s, m).busy,
{
}

/// Every message that starts a background command sets the busy flag.
pub proof fn law_dispatch_sets_busy<N>(s: DesktopModel<N>, m: Message<N>)
    ensures
        effect_of(s, m) != Effect::Idle ==> next_model(s, m).busy,
{
}

/// A message that neither starts nor finishes a command leaves the busy
/// flag as it was.
pub proof fn law_idle_keeps_busy<N>(s: DesktopModel<N>, m: Message<N>)
    requires
        !is_completion(m),
        effect_of(s, m) == Effect::Idle,
    ensures
        next_model(s, m).busy == s.busy,
{
}

/// Actions that need text do nothing but ask for it when the editor is
/// blank.
pub proof fn law_blank_text_starts_nothing<N>(s: DesktopModel<N>, m: Message<N>)
    requires
        blank(s.content),
        m is Save || m is RequestAiTags || m is RequestSummary,
    ensures
        effect_of(s, m) == Effect::Idle,
        next_model(s, m) == (DesktopModel { ai_status: need_text(), ..s }),
{
}

/// Navigation changes nothing but the panel shown.
pub proof fn law_navigation_only_moves_view<N>(s: DesktopModel<N>, m: Message<N>)
    requires
        m is ShowForm || m is ShowSync || m is ShowAiSettings,
    ensures
        next_model(s, m) == (DesktopModel { current_view: next_model(s, m).current_view, ..s }),
        effect_of(s, m) == Effect::Idle,
{
}

/// The listed notes change only when search results arrive, and then they
/// are exactly the results, with their status replacing any transient one.
pub proof fn law_notes_follow_results<N>(s: DesktopModel<N>, m: Message<N>)
    ensures
        !(m is SearchReady) ==> next_model(s, m).notes == s.notes,
        m matches Message::SearchReady(o) ==> next_model(s, m).notes == o.notes@
            && next_model(s, m).ai_status == o.status@,
{
}

/// Searching or syncing with nothing to search for or sync with changes
/// nothing.
pub proof fn law_empty_input_is_ignored<N>(s: DesktopModel<N>, m: Message<N>)
    requires
        (m is Search && s.query.len() == 0) || (m is Sync && s.remote_addr.len() == 0),
    ensures
        next_model(s, m) == s,
        effect_of(s, m) == Effect::Idle,
{
}

/// A successful save leaves an empty editor for the next note: the text,
/// the tags, the suggested tags and the summary are all emptied, whatever
/// they held, and the status says the note was saved; nothing else changes
/// but the busy flag. A failed save keeps the form as it was. Clearing the
/// form empties the same fields and the status. Saving again straight after
/// a successful save asks for text and starts nothing.
pub proof fn law_save_resets_form<N>(s: DesktopModel<N>, id: i64)
    ensures
        next_model(s, Message::Saved(Some(id))).content.len() == 0,
        next_model(s, Message::Saved(Some(id))).tags.len() == 0,
        next_model(s, Message::Saved(Some(id))).ai_suggested_tags.len() == 0,
        next_model(s, Message::Saved(Some(id))).ai_summary.len() == 0,
        next_model(s, Message::Saved(Some(id))).ai_status == "Saved"@,
        !next_model(s, Message::Saved(Some(id))).busy,
        next_model(s, Message::Saved(Some(id))) == (DesktopModel {
            content: Seq::<char>::empty(),
            tags: Seq::<char>::empty(),
            ai_suggested_tags: Seq::<char>::empty(),
            ai_summary: Seq::<char>::empty(),
            ai_status: "Saved"@,
            busy: false,
            ..s
        }),
        next_model(s, Message::Saved(None)) == (DesktopModel {
            ai_status: "Failed to save"@,
            busy: false,
            ..s
        }),
        next_model(s, Message::ClearForm) == (DesktopModel {
            content: Seq::<char>::empty(),
            tags: Seq::<char>::empty(),
            ai_suggested_tags: Seq::<char>::empty(),
            ai_summary: Seq::<char>::empty(),
            ai_status: Seq::<char>::empty(),
            ..s
        }),
        effect_of(next_model(s, Message::Saved(Some(id))), Message::Save) == Effect::Idle,
{
    let t = next_model(s, Message::Saved(Some(id)));
    assert(t.content =~= Seq::<char>::empty());
    assert(trim_start(t.content, white_space()) =~= Seq::<char>::empty());
    assert(trim_ws(t.content) =~= Seq::<char>::empty());
}

/// Using the AI suggestions keeps the user's own tags in front and adds the
/// suggestions after them, with one comma between when the user had tags;
/// replacing puts the suggestions in their place. Either way the suggestions
/// are then used up, and nothing else changes.
pub proof fn law_suggestions_join_own_tags<N>(s: DesktopModel<N>)
    ensures
        ({
            let t = next_model(s, Message::UseAiTags).tags;
            &&& t.len() >= s.tags.len()
            &&& t.take(s.tags.len() as int) == s.tags
            &&& t.skip(t.len() - s.ai_suggested_tags.len()) == s.ai_suggested_tags
            &&& s.tags.len() > 0 ==> t.len() == s.tags.len() + 1 + s.ai_suggested_tags.len()
                && t[s.tags.len() as int] == ','
            &&& s.tags.len() == 0 ==> t == s.ai_suggested_tags
        }),
        next_model(s, Message::UseAiTags) == (DesktopModel {
            tags: next_model(s, Message::UseAiTags).tags,
            ai_suggested_tags: Seq::<char>::empty(),
            ..s
        }),
        next_model(s, Message::ReplaceAiTags) == (DesktopModel {
            tags: s.ai_suggested_tags,
            ai_suggested_tags: Seq::<char>::empty(),
            ..s
        }),
{
    let t = next_model(s, Message::UseAiTags).tags;
    if s.tags.len() > 0 {
        assert(t.take(s.tags.len() as int) =~= s.tags);
        assert(t.skip(t.len() - s.ai_suggested_tags.len()) =~= s.ai_suggested_tags);
    } else {
        assert(t.take(0) =~= s.tags);
        assert(t.skip(0) =~= t);
    }
}

/// Editing a field of the form sets that field to the text given and
/// changes nothing else.
pub proof fn law_edit_sets_one_field<N>(s: DesktopModel<N>, text: String)
    ensures
        next_model(s, Message::ContentEdited(text)) == (DesktopModel { content: text@, ..s }),
        next_model(s, Message::TagsChanged(text)) == (DesktopModel { tags: text@, ..s }),
        next_model(s, Message::QueryChanged(text)) == (DesktopModel { query: text@, ..s }),
        next_model(s, Message::RemoteAddrChanged(text)) == (DesktopModel { remote_addr: text@, ..s }),
        next_model(s, Message::EndpointChanged(text)) == (DesktopModel { ai_endpoint: text@, ..s }),
        next_model(s, Message::ModelChanged(text)) == (DesktopModel { ai_model: text@, ..s }),
{
}

} // verus!
