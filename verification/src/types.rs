//! The records the JSON command protocol is made of: commands, notes and the
//! responses of the AI actions.
use vstd::prelude::*;

verus! {

/// The action field every command carries.
#[derive(Debug, Clone)]
pub struct Cmd {
    pub action: String,
}

/// A string key with an integer value.
#[derive(Debug, Clone)]
pub struct KVStringI64 {
    pub k: String,
    pub v: i64,
}

/// The tags of a note, as stored.
#[derive(Debug, Clone)]
pub struct Tags {
    pub tags: String,
}

/// A note with its AI metadata.
#[derive(Debug, Clone)]
pub struct Note {
    pub rowid: i64,
    pub uuid4: String,
    pub txt: String,
    pub tags: String,
    pub created_at: String,
    /// AI-suggested tags (JSON array)
    pub ai_tags: Option<String>,
    /// AI-generated summary
    pub ai_summary: Option<String>,
    /// AI-assigned category
    pub ai_category: Option<String>,
}

impl Default for Note {
    /// The empty note (rowid 0, every text empty, no AI metadata).
    fn default() -> (r: Self)
        ensures
            r.rowid == 0,
            r.uuid4@ == Seq::<char>::empty(),
            r.txt@ == Seq::<char>::empty(),
            r.tags@ == Seq::<char>::empty(),
            r.created_at@ == Seq::<char>::empty(),
            r.ai_tags is None,
            r.ai_summary is None,
            r.ai_category is None,
    {
        Note {
            rowid: 0,
            uuid4: String::new(),
            txt: String::new(),
            tags: String::new(),
            created_at: String::new(),
            ai_tags: None,
            ai_summary: None,
            ai_category: None,
        }
    }
}

/// A page of notes.
#[derive(Debug, Clone)]
pub struct CmdSelect {
    pub limit: u32,
    pub offset: u32,
}

/// A note to insert, and the page to answer with.
#[derive(Debug, Clone)]
pub struct CmdInsert {
    pub txt: String,
    pub tags: String,
    pub limit: u32,
    pub offset: u32,
}

/// A note to delete, and the search to answer with.
#[derive(Debug, Clone)]
pub struct CmdDelete {
    pub query: String,
    pub rowid: i64,
    pub limit: u32,
    pub offset: u32,
}

/// A keyword search and the page of results wanted.
#[derive(Debug, Clone)]
pub struct CmdSearch {
    pub query: String,
    pub limit: u32,
    pub offset: u32,
}

/// The address of a sync server to contact.
#[derive(Debug, Clone)]
pub struct CmdRpcClient {
    pub addr: String,
}

/// The address a sync server listens on.
#[derive(Debug, Clone)]
pub struct CmdRpcServer {
    pub addr: String,
}

/// A single string.
#[derive(Debug, Clone)]
pub struct OneString {
    pub s: String,
}

/// Suggest tags for a text.
#[derive(Debug, Clone)]
pub struct CmdAiTag {
    /// Text to analyze for tag suggestions
    pub text: String,
    /// Optional: Ollama endpoint URL
    pub endpoint: Option<String>,
    /// Optional: Model name (e.g., "llama3.2")
    pub model: Option<String>,
}

/// Tag every note that has no AI tags yet.
#[derive(Debug, Clone)]
pub struct CmdAiTagAll {
    /// Maximum number of notes to process
    pub limit: Option<u32>,
    /// Optional: Ollama endpoint URL
    pub endpoint: Option<String>,
    /// Optional: Model name
    pub model: Option<String>,
}

/// Summarize one note.
#[derive(Debug, Clone)]
pub struct CmdAiSummarize {
    /// Rowid of the note to summarize
    pub rowid: i64,
    /// Optional: Ollama endpoint URL
    pub endpoint: Option<String>,
    /// Optional: Model name
    pub model: Option<String>,
}

/// The answer to a tag suggestion.
#[derive(Debug, Clone)]
pub struct AiTagsResponse {
    /// Suggested tags from AI
    pub tags: Vec<String>,
    /// Whether AI backend was available
    pub available: bool,
    /// Error message if any
    pub error: Option<String>,
}

/// The answer to a summary request.
#[derive(Debug, Clone)]
pub struct AiSummarizeResponse {
    /// Generated summary
    pub summary: Option<String>,
    /// Whether AI backend was available
    pub available: bool,
    /// Error message if any
    pub error: Option<String>,
}

/// A note with its AI metadata, as the AI actions report it.
#[derive(Debug, Clone)]
pub struct NoteWithAi {
    pub rowid: i64,
    pub uuid4: String,
    pub txt: String,
    pub tags: String,
    pub created_at: String,
    /// AI-suggested tags (JSON array)
    pub ai_tags: Option<String>,
    /// AI-generated summary
    pub ai_summary: Option<String>,
    /// AI-assigned category
    pub ai_category: Option<String>,
}

/// Embed one note.
#[derive(Debug, Clone)]
pub struct CmdAiEmbed {
    /// Rowid of the note to embed
    pub rowid: i64,
    /// Optional: Ollama endpoint URL
    pub endpoint: Option<String>,
    /// Optional: Model name for embeddings
    pub model: Option<String>,
}

/// Embed every note that has no embedding yet.
#[derive(Debug, Clone)]
pub struct CmdAiEmbedAll {
    /// Maximum number of notes to process
    pub limit: Option<u32>,
    /// Optional: Ollama endpoint URL
    pub endpoint: Option<String>,
    /// Optional: Model name for embeddings
    pub model: Option<String>,
}

/// Categorize the notes that have no category yet.
#[derive(Debug, Clone)]
pub struct CmdAiOrganize {
    /// Maximum number of notes to process
    pub limit: Option<u32>,
    /// Optional: Ollama endpoint URL
    pub endpoint: Option<String>,
    /// Optional: Model name
    pub model: Option<String>,
}

/// The answer to an organize request.
#[derive(Debug, Clone)]
pub struct AiOrganizeResponse {
    /// Notes given a category
    pub processed: u32,
    /// Notes whose batch failed
    pub errors: u32,
    /// Each category given, with the number of notes given it, in order of
    /// first appearance
    pub categories: Vec<(String, usize)>,
    /// Whether AI backend was available
    pub available: bool,
    /// Error message if any
    pub error: Option<String>,
}

/// The answer to an embedding request.
#[derive(Debug, Clone)]
pub struct AiEmbedResponse {
    pub success: bool,
    pub available: bool,
    pub error: Option<String>,
}

} // verus!
