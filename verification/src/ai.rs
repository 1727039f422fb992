//! The AI abstraction: errors, configuration and the responses the command
//! layer reports for AI actions.
use crate::foreign::str_eq;
use vstd::prelude::*;

verus! {

/// Errors that can occur during AI operations.
#[derive(Debug, Clone)]
pub enum AiError {
    /// The AI backend is not available on this device/configuration
    Unavailable,
    /// Network or connection error (for HTTP-based backends like Ollama)
    ConnectionError(String),
    /// The AI model returned an invalid or unexpected response
    InvalidResponse(String),
    /// Request timed out
    Timeout,
    /// The input text was too long for the model
    InputTooLong,
    /// Generic error with message
    Other(String),
}

/// Result type for AI operations.
pub type AiResult<T> = Result<T, AiError>;

/// The text an error displays as.
pub open spec fn ai_error_text(e: AiError) -> Seq<char> {
    match e {
        AiError::Unavailable => "AI backend is not available"@,
        AiError::ConnectionError(msg) => "Connection error: "@ + msg@,
        AiError::InvalidResponse(msg) => "Invalid response: "@ + msg@,
        AiError::Timeout => "Request timed out"@,
        AiError::InputTooLong => "Input text is too long"@,
        AiError::Other(msg) => "AI error: "@ + msg@,
    }
}

impl AiError {
    /// The human-readable message of this error.
    pub fn message(&self) -> (r: String)
        ensures
            r@ == ai_error_text(*self),
    {
        match self {
            AiError::Unavailable => String::from_str("AI backend is not available"),
            AiError::ConnectionError(msg) => {
                let mut r = String::from_str("Connection error: ");
                r.append(msg.as_str());
                r
            },
            AiError::InvalidResponse(msg) => {
                let mut r = String::from_str("Invalid response: ");
                r.append(msg.as_str());
                r
            },
            AiError::Timeout => String::from_str("Request timed out"),
            AiError::InputTooLong => String::from_str("Input text is too long"),
            AiError::Other(msg) => {
                let mut r = String::from_str("AI error: ");
                r.append(msg.as_str());
                r
            },
        }
    }
}

/// Configuration for AI backends.
#[derive(Debug, Clone)]
pub struct AiConfig {
    /// For Ollama: base URL (e.g., "http://localhost:11434");
    /// for llama.cpp: the server URL
    pub endpoint: Option<String>,
    /// Model name (e.g., "llama3.2", "mistral")
    pub model: Option<String>,
    /// Maximum tokens for responses
    pub max_tokens: Option<u32>,
    /// Temperature for generation in thousandths (300 is 0.3; range 0 - 2000)
    pub temperature_milli: Option<u32>,
    /// Request timeout in seconds
    pub timeout_secs: Option<u64>,
    /// Per-task model override for tagging
    pub tagging_model: Option<String>,
    /// Per-task model override for summarization
    pub summarize_model: Option<String>,
    /// Per-task model override for embeddings
    pub embedding_model: Option<String>,
    /// Per-task model override for categorization
    pub categorize_model: Option<String>,
    /// Reasoning effort level for models that support it ("low", "medium", "high")
    pub reasoning_effort: Option<String>,
}

/// The characters of an optional string.
pub open spec fn opt_str(o: Option<String>) -> Option<Seq<char>> {
    match o {
        Some(s) => Some(s@),
        None => None,
    }
}

/// The general model name used when neither a task model nor a model is set.
pub open spec fn default_model_name() -> Seq<char> {
    "llama3.2"@
}

/// The per-task override configured for `task`, if the task is known.
pub open spec fn task_model(c: AiConfig, task: Seq<char>) -> Option<Seq<char>> {
    if task == "tagging"@ {
        opt_str(c.tagging_model)
    } else if task == "summarize"@ {
        opt_str(c.summarize_model)
    } else if task == "embedding"@ {
        opt_str(c.embedding_model)
    } else if task == "categorize"@ {
        opt_str(c.categorize_model)
    } else {
        None
    }
}

/// The model used for `task`: the task override, else the general model,
/// else `llama3.2`.
pub open spec fn model_for_task_spec(c: AiConfig, task: Seq<char>) -> Seq<char> {
    match task_model(c, task) {
        Some(m) => m,
        None => match opt_str(c.model) {
            Some(m) => m,
            None => default_model_name(),
        },
    }
}

/// A copy of an optional string.
pub fn clone_opt(o: &Option<String>) -> (r: Option<String>)
    ensures
        opt_str(r) == opt_str(*o),
{
    match o {
        Some(s) => Some(s.clone()),
        None => None,
    }
}

impl AiConfig {
    /// Get the model name for a specific task, falling back to the general model.
    pub fn model_for_task(&self, task: &str) -> (r: String)
        ensures
            r@ == model_for_task_spec(*self, task@),
    {
        let task_model = if str_eq(task, "tagging") {
            clone_opt(&self.tagging_model)
        } else if str_eq(task, "summarize") {
            clone_opt(&self.summarize_model)
        } else if str_eq(task, "embedding") {
            clone_opt(&self.embedding_model)
        } else if str_eq(task, "categorize") {
            clone_opt(&self.categorize_model)
        } else {
            None
        };
        match task_model {
            Some(m) => m,
            None => match &self.model {
                Some(m) => m.clone(),
                None => String::from_str("llama3.2"),
            },
        }
    }
}

/// The default configuration: a local Ollama server and its default model,
/// 256 tokens, temperature 0.3, 30 seconds, no task overrides.
pub open spec fn is_default_config(c: AiConfig) -> bool {
    &&& opt_str(c.endpoint) == Some("http://localhost:11434"@)
    &&& opt_str(c.model) == Some(default_model_name())
    &&& c.max_tokens == Some(256u32)
    &&& c.temperature_milli == Some(300u32)
    &&& c.timeout_secs == Some(30u64)
    &&& c.tagging_model is None
    &&& c.summarize_model is None
    &&& c.embedding_model is None
    &&& c.categorize_model is None
    &&& c.reasoning_effort is None
}

impl Default for AiConfig {
    fn default() -> (r: Self)
        ensures
            is_default_config(r),
    {
        AiConfig {
            endpoint: Some(String::from_str("http://localhost:11434")),
            model: Some(String::from_str("llama3.2")),
            max_tokens: Some(256),
            temperature_milli: Some(300),
            timeout_secs: Some(30),
            tagging_model: None,
            summarize_model: None,
            embedding_model: None,
            categorize_model: None,
            reasoning_effort: None,
        }
    }
}

/// What every AI backend offers. Each platform (a local HTTP model server,
/// an on-device model, the mock used in tests) provides its own
/// implementation; the command layer only goes through this trait.
///
/// Each operation comes with a relation: which answers it may give to which
/// request. An answer may depend on more than the request (a server that is
/// down, a model's sampling), so a relation need not pick one answer. By
/// default a backend may give any answer; one that promises more (the mock)
/// states it by defining the relations.
pub trait AiBackend {
    /// The embedding vectors this backend produces.
    type Embedding;

    /// Whether `r` is an answer this backend may give when asked whether it
    /// is available.
    open spec fn available_answer(&self, r: bool) -> bool {
        true
    }

    /// Whether `r` may answer a tag request for `text` under `config`.
    open spec fn tags_answer(&self, text: Seq<char>, config: AiConfig, r: AiResult<Vec<String>>) -> bool {
        true
    }

    /// Whether `r` may answer a summary request for `text` under `config`.
    open spec fn summary_answer(&self, text: Seq<char>, config: AiConfig, r: AiResult<String>) -> bool {
        true
    }

    /// Whether `r` may answer an embedding request for `text` under `config`.
    open spec fn embed_answer(
        &self,
        text: Seq<char>,
        config: AiConfig,
        r: AiResult<Self::Embedding>,
    ) -> bool {
        true
    }

    /// Whether `r` may answer a categorization request for `texts` under
    /// `config`.
    open spec fn categories_answer(
        &self,
        texts: Seq<Seq<char>>,
        config: AiConfig,
        r: AiResult<Vec<String>>,
    ) -> bool {
        true
    }

    /// Whether `r` may answer a plain-language request for `text`.
    open spec fn simplify_answer(&self, text: Seq<char>, config: AiConfig, r: AiResult<String>) -> bool {
        true
    }

    /// Whether `r` may answer a key-points request for `text`.
    open spec fn key_points_answer(
        &self,
        text: Seq<char>,
        config: AiConfig,
        r: AiResult<Vec<String>>,
    ) -> bool {
        true
    }

    /// Check if the AI backend is available and properly configured.
    fn is_available(&self) -> (r: bool)
        ensures
            self.available_answer(r),
    ;

    /// Suggest tags for the given text.
    fn suggest_tags(&self, text: &str, config: &AiConfig) -> (r: AiResult<Vec<String>>)
        ensures
            self.tags_answer(text@, *config, r),
    ;

    /// Generate a concise summary of the given text.
    fn summarize(&self, text: &str, config: &AiConfig) -> (r: AiResult<String>)
        ensures
            self.summary_answer(text@, *config, r),
    ;

    /// Generate an embedding vector for the given text.
    fn embed(&self, text: &str, config: &AiConfig) -> (r: AiResult<Self::Embedding>)
        ensures
            self.embed_answer(text@, *config, r),
    ;

    /// Categorize multiple texts: one category label per input text.
    fn categorize(&self, texts: &[&str], config: &AiConfig) -> (r: AiResult<Vec<String>>)
        ensures
            self.categories_answer(texts@.map_values(|t: &str| t@), *config, r),
    ;

    /// Rewrite the text in plain, simple language.
    fn simplify(&self, text: &str, config: &AiConfig) -> (r: AiResult<String>)
        ensures
            self.simplify_answer(text@, *config, r),
    ;

    /// Extract the key points of the text.
    fn key_points(&self, text: &str, config: &AiConfig) -> (r: AiResult<Vec<String>>)
        ensures
            self.key_points_answer(text@, *config, r),
    ;

    /// Get the name/identifier of this backend.
    fn backend_name(&self) -> &str;
}

} // verus!
