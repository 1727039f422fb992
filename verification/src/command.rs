//! The JSON command protocol: which action a command names, and the exact
//! JSON texts the core answers with.
use crate::foreign::str_eq;
use crate::query::{decimal, decimal_string};
use vstd::prelude::*;

verus! {

/// The actions a command can name.
#[derive(Debug, Clone, Copy, PartialEq, Eq, Structural)]
pub enum Action {
    ServerAddr,
    Server,
    Search,
    Select,
    Insert,
    Delete,
    ClientSync,
    ClientStopServer,
    AiTag,
    AiTagAll,
    AiSummarize,
    AiEmbed,
    AiEmbedAll,
    SemanticSearch,
    AiReprocess,
    AiOrganize,
    RenameCategory,
    DismissCategory,
    GetCategories,
    SyncEmbeddings,
    /// Any other action name.
    Unknown,
}

/// The action named by the `action` field.
pub open spec fn action_of(name: Seq<char>) -> Action {
    if name == "server-addr"@ {
        Action::ServerAddr
    } else if name == "server"@ {
        Action::Server
    } else if name == "search"@ {
        Action::Search
    } else if name == "select"@ {
        Action::Select
    } else if name == "insert"@ {
        Action::Insert
    } else if name == "delete"@ {
        Action::Delete
    } else if name == "client-sync"@ {
        Action::ClientSync
    } else if name == "client-stop-server"@ {
        Action::ClientStopServer
    } else if name == "ai-tag"@ {
        Action::AiTag
    } else if name == "ai-tag-all"@ {
        Action::AiTagAll
    } else if name == "ai-summarize"@ {
        Action::AiSummarize
    } else if name == "ai-embed"@ {
        Action::AiEmbed
    } else if name == "ai-embed-all"@ {
        Action::AiEmbedAll
    } else if name == "semantic-search"@ {
        Action::SemanticSearch
    } else if name == "ai-reprocess"@ {
        Action::AiReprocess
    } else if name == "ai-organize"@ {
        Action::AiOrganize
    } else if name == "rename-category"@ {
        Action::RenameCategory
    } else if name == "dismiss-category"@ {
        Action::DismissCategory
    } else if name == "get-categories"@ {
        Action::GetCategories
    } else if name == "sync-embeddings"@ {
        Action::SyncEmbeddings
    } else {
        Action::Unknown
    }
}

/// The name of each action in the protocol; the empty text for `Unknown`,
/// which no command names.
pub open spec fn action_name(a: Action) -> Seq<char> {
    match a {
        Action::ServerAddr => "server-addr"@,
        Action::Server => "server"@,
        Action::Search => "search"@,
        Action::Select => "select"@,
        Action::Insert => "insert"@,
        Action::Delete => "delete"@,
        Action::ClientSync => "client-sync"@,
        Action::ClientStopServer => "client-stop-server"@,
        Action::AiTag => "ai-tag"@,
        Action::AiTagAll => "ai-tag-all"@,
        Action::AiSummarize => "ai-summarize"@,
        Action::AiEmbed => "ai-embed"@,
        Action::AiEmbedAll => "ai-embed-all"@,
        Action::SemanticSearch => "semantic-search"@,
        Action::AiReprocess => "ai-reprocess"@,
        Action::AiOrganize => "ai-organize"@,
        Action::RenameCategory => "rename-category"@,
        Action::DismissCategory => "dismiss-category"@,
        Action::GetCategories => "get-categories"@,
        Action::SyncEmbeddings => "sync-embeddings"@,
        Action::Unknown => Seq::empty(),
    }
}

/// Each action name of the protocol selects its own action, and only a name
/// outside the protocol selects `Unknown`: reading the name of an action
/// gives that action back, and an action read from a name has that name.
/// So no two names select the same action, and `delete` selects `Delete`.
pub proof fn law_each_name_selects_its_action(name: Seq<char>)
    ensures
        forall|a: Action| a != Action::Unknown ==> action_of(#[trigger] action_name(a)) == a,
        action_of(name) != Action::Unknown ==> action_name(action_of(name)) == name,
        action_of(name) == Action::Unknown <==> forall|a: Action|
            a != Action::Unknown ==> #[trigger] action_name(a) != name,
        action_of("delete"@) == Action::Delete,
        action_of("insert"@) == Action::Insert,
        action_of("search"@) == Action::Search,
{
    reveal_strlit("server-addr");
    reveal_strlit("server");
    reveal_strlit("search");
    reveal_strlit("select");
    reveal_strlit("insert");
    reveal_strlit("delete");
    reveal_strlit("client-sync");
    reveal_strlit("client-stop-server");
    reveal_strlit("ai-tag");
    reveal_strlit("ai-tag-all");
    reveal_strlit("ai-summarize");
    reveal_strlit("ai-embed");
    reveal_strlit("ai-embed-all");
    reveal_strlit("semantic-search");
    reveal_strlit("ai-reprocess");
    reveal_strlit("ai-organize");
    reveal_strlit("rename-category");
    reveal_strlit("dismiss-category");
    reveal_strlit("get-categories");
    reveal_strlit("sync-embeddings");
    assert("server-addr"@.len() == 11);
    assert("server"@.len() == 6);
    assert("search"@.len() == 6);
    assert("select"@.len() == 6);
    assert("insert"@.len() == 6);
    assert("delete"@.len() == 6);
    assert("client-sync"@.len() == 11);
    assert("client-stop-server"@.len() == 18);
    assert("ai-tag"@.len() == 6);
    assert("ai-tag-all"@.len() == 10);
    assert("ai-summarize"@.len() == 12);
    assert("ai-embed"@.len() == 8);
    assert("ai-embed-all"@.len() == 12);
    assert("semantic-search"@.len() == 15);
    assert("ai-reprocess"@.len() == 12);
    assert("ai-organize"@.len() == 11);
    assert("rename-category"@.len() == 15);
    assert("dismiss-category"@.len() == 16);
    assert("get-categories"@.len() == 14);
    assert("sync-embeddings"@.len() == 15);
    assert("server-addr"@[0] != "client-sync"@[0]);
    assert("server-addr"@[0] != "ai-organize"@[0]);
    assert("server"@[2] != "search"@[2]);
    assert("server"@[2] != "select"@[2]);
    assert("server"@[0] != "insert"@[0]);
    assert("server"@[0] != "delete"@[0]);
    assert("server"@[0] != "ai-tag"@[0]);
    assert("search"@[2] != "select"@[2]);
    assert("search"@[0] != "insert"@[0]);
    assert("search"@[0] != "delete"@[0]);
    assert("search"@[0] != "ai-tag"@[0]);
    assert("select"@[0] != "insert"@[0]);
    assert("select"@[0] != "delete"@[0]);
    assert("select"@[0] != "ai-tag"@[0]);
    assert("insert"@[0] != "delete"@[0]);
    assert("insert"@[0] != "ai-tag"@[0]);
    assert("delete"@[0] != "ai-tag"@[0]);
    assert("client-sync"@[0] != "ai-organize"@[0]);
    assert("ai-summarize"@[3] != "ai-embed-all"@[3]);
    assert("ai-summarize"@[3] != "ai-reprocess"@[3]);
    assert("ai-embed-all"@[3] != "ai-reprocess"@[3]);
    assert("semantic-search"@[0] != "rename-category"@[0]);
    assert("semantic-search"@[1] != "sync-embeddings"@[1]);
    assert("rename-category"@[0] != "sync-embeddings"@[0]);
    assert(action_of(action_name(Action::ServerAddr)) == Action::ServerAddr);
    assert(action_of(action_name(Action::Server)) == Action::Server);
    assert(action_of(action_name(Action::Search)) == Action::Search);
    assert(action_of(action_name(Action::Select)) == Action::Select);
    assert(action_of(action_name(Action::Insert)) == Action::Insert);
    assert(action_of(action_name(Action::Delete)) == Action::Delete);
    assert(action_of(action_name(Action::ClientSync)) == Action::ClientSync);
    assert(action_of(action_name(Action::ClientStopServer)) == Action::ClientStopServer);
    assert(action_of(action_name(Action::AiTag)) == Action::AiTag);
    assert(action_of(action_name(Action::AiTagAll)) == Action::AiTagAll);
    assert(action_of(action_name(Action::AiSummarize)) == Action::AiSummarize);
    assert(action_of(action_name(Action::AiEmbed)) == Action::AiEmbed);
    assert(action_of(action_name(Action::AiEmbedAll)) == Action::AiEmbedAll);
    assert(action_of(action_name(Action::SemanticSearch)) == Action::SemanticSearch);
    assert(action_of(action_name(Action::AiReprocess)) == Action::AiReprocess);
    assert(action_of(action_name(Action::AiOrganize)) == Action::AiOrganize);
    assert(action_of(action_name(Action::RenameCategory)) == Action::RenameCategory);
    assert(action_of(action_name(Action::DismissCategory)) == Action::DismissCategory);
    assert(action_of(action_name(Action::GetCategories)) == Action::GetCategories);
    assert(action_of(action_name(Action::SyncEmbeddings)) == Action::SyncEmbeddings);
    assert forall|a: Action| a != Action::Unknown implies action_of(#[trigger] action_name(a)) == a by {
        match a {
            Action::ServerAddr => {},
            Action::Server => {},
            Action::Search => {},
            Action::Select => {},
            Action::Insert => {},
            Action::Delete => {},
            Action::ClientSync => {},
            Action::ClientStopServer => {},
            Action::AiTag => {},
            Action::AiTagAll => {},
            Action::AiSummarize => {},
            Action::AiEmbed => {},
            Action::AiEmbedAll => {},
            Action::SemanticSearch => {},
            Action::AiReprocess => {},
            Action::AiOrganize => {},
            Action::RenameCategory => {},
            Action::DismissCategory => {},
            Action::GetCategories => {},
            Action::SyncEmbeddings => {},
            Action::Unknown => {},
        }
    }
    if action_of(name) == Action::Unknown {
        assert forall|a: Action| a != Action::Unknown implies #[trigger] action_name(a) != name by {
            match a {
                Action::ServerAddr => {},
                Action::Server => {},
                Action::Search => {},
                Action::Select => {},
                Action::Insert => {},
                Action::Delete => {},
                Action::ClientSync => {},
                Action::ClientStopServer => {},
                Action::AiTag => {},
                Action::AiTagAll => {},
                Action::AiSummarize => {},
                Action::AiEmbed => {},
                Action::AiEmbedAll => {},
                Action::SemanticSearch => {},
                Action::AiReprocess => {},
                Action::AiOrganize => {},
                Action::RenameCategory => {},
                Action::DismissCategory => {},
                Action::GetCategories => {},
                Action::SyncEmbeddings => {},
                Action::Unknown => {},
            }
        }
    }
}

/// The action a command names.
pub fn parse_action(name: &str) -> (r: Action)
    ensures
        r == action_of(name@),
{
    if str_eq(name, "server-addr") {
        Action::ServerAddr
    } else if str_eq(name, "server") {
        Action::Server
    } else if str_eq(name, "search") {
        Action::Search
    } else if str_eq(name, "select") {
        Action::Select
    } else if str_eq(name, "insert") {
        Action::Insert
    } else if str_eq(name, "delete") {
        Action::Delete
    } else if str_eq(name, "client-sync") {
        Action::ClientSync
    } else if str_eq(name, "client-stop-server") {
        Action::ClientStopServer
    } else if str_eq(name, "ai-tag") {
        Action::AiTag
    } else if str_eq(name, "ai-tag-all") {
        Action::AiTagAll
    } else if str_eq(name, "ai-summarize") {
        Action::AiSummarize
    } else if str_eq(name, "ai-embed") {
        Action::AiEmbed
    } else if str_eq(name, "ai-embed-all") {
        Action::AiEmbedAll
    } else if str_eq(name, "semantic-search") {
        Action::SemanticSearch
    } else if str_eq(name, "ai-reprocess") {
        Action::AiReprocess
    } else if str_eq(name, "ai-organize") {
        Action::AiOrganize
    } else if str_eq(name, "rename-category") {
        Action::RenameCategory
    } else if str_eq(name, "dismiss-category") {
        Action::DismissCategory
    } else if str_eq(name, "get-categories") {
        Action::GetCategories
    } else if str_eq(name, "sync-embeddings") {
        Action::SyncEmbeddings
    } else {
        Action::Unknown
    }
}

/// The answer when the fields an action needs cannot be read from the
/// command; `None` for actions that read no fields.
pub open spec fn parse_error_text(a: Action) -> Option<Seq<char>> {
    match a {
        Action::Server => Some("{\"error\":\"cmd server error\"}"@),
        Action::Search => Some("{\"error\":\"cmd search json error\"}"@),
        Action::Select => Some("{\"error\":\"cmd select json error\"}"@),
        Action::Insert => Some("{\"error\":\"cmd insert json error\"}"@),
        Action::Delete => Some("{\"error\":\"cmd delete json error\"}"@),
        Action::ClientSync => Some("{\"error\":\"cmd client-sync error\"}"@),
        Action::ClientStopServer => Some("{\"error\":\"cmd client-stop-server error\"}"@),
        Action::AiTag => Some("{\"error\":\"cmd ai-tag json error\"}"@),
        Action::AiTagAll => Some("{\"error\":\"cmd ai-tag-all json error\"}"@),
        Action::AiSummarize => Some("{\"error\":\"cmd ai-summarize json error\"}"@),
        Action::AiEmbed => Some("{\"error\":\"cmd ai-embed json error\"}"@),
        Action::AiEmbedAll => Some("{\"error\":\"cmd ai-embed-all json error\"}"@),
        Action::SemanticSearch => Some("{\"error\":\"cmd semantic-search json error\"}"@),
        Action::AiReprocess => Some("{\"error\":\"cmd ai-reprocess json error\"}"@),
        Action::AiOrganize => Some("{\"error\":\"cmd ai-organize json error\"}"@),
        Action::RenameCategory => Some("{\"error\":\"cmd rename-category json error\"}"@),
        Action::DismissCategory => Some("{\"error\":\"cmd dismiss-category json error\"}"@),
        Action::SyncEmbeddings => Some("{\"error\":\"cmd sync-embeddings json error\"}"@),
        _ => None,
    }
}

/// The answer when the fields an action needs cannot be read from the
/// command; `None` for actions that read no fields.
pub fn parse_error(a: Action) -> (r: Option<String>)
    ensures
        crate::ai::opt_str(r) == parse_error_text(a),
{
    match a {
        Action::Server => Some(String::from_str("{\"error\":\"cmd server error\"}")),
        Action::Search => Some(String::from_str("{\"error\":\"cmd search json error\"}")),
        Action::Select => Some(String::from_str("{\"error\":\"cmd select json error\"}")),
        Action::Insert => Some(String::from_str("{\"error\":\"cmd insert json error\"}")),
        Action::Delete => Some(String::from_str("{\"error\":\"cmd delete json error\"}")),
        Action::ClientSync => Some(String::from_str("{\"error\":\"cmd client-sync error\"}")),
        Action::ClientStopServer => Some(
            String::from_str("{\"error\":\"cmd client-stop-server error\"}"),
        ),
        Action::AiTag => Some(String::from_str("{\"error\":\"cmd ai-tag json error\"}")),
        Action::AiTagAll => Some(String::from_str("{\"error\":\"cmd ai-tag-all json error\"}")),
        Action::AiSummarize => Some(String::from_str("{\"error\":\"cmd ai-summarize json error\"}")),
        Action::AiEmbed => Some(String::from_str("{\"error\":\"cmd ai-embed json error\"}")),
        Action::AiEmbedAll => Some(String::from_str("{\"error\":\"cmd ai-embed-all json error\"}")),
        Action::SemanticSearch => Some(
            String::from_str("{\"error\":\"cmd semantic-search json error\"}"),
        ),
        Action::AiReprocess => Some(String::from_str("{\"error\":\"cmd ai-reprocess json error\"}")),
        Action::AiOrganize => Some(String::from_str("{\"error\":\"cmd ai-organize json error\"}")),
        Action::RenameCategory => Some(
            String::from_str("{\"error\":\"cmd rename-category json error\"}"),
        ),
        Action::DismissCategory => Some(
            String::from_str("{\"error\":\"cmd dismiss-category json error\"}"),
        ),
        Action::SyncEmbeddings => Some(
            String::from_str("{\"error\":\"cmd sync-embeddings json error\"}"),
        ),
        _ => None,
    }
}

/// The fixed answers of the protocol.
#[derive(Debug, Clone, Copy, PartialEq, Eq, Structural)]
pub enum Fixed {
    /// The command is not JSON with an `action`.
    CmdJsonError,
    /// The command's bytes are not text.
    InputError,
    /// The database could not be upgraded.
    UpgradeError,
    /// The action is unknown.
    NoMatch,
    /// The sync server ran.
    ServerStarted,
    /// The sync server could not run.
    ServerError,
    /// The client sync failed.
    ClientSyncError,
    /// The request to stop a server failed.
    ClientStopServerError,
    /// No AI backend answers.
    AiUnavailable,
}

/// The text of a fixed answer.
pub open spec fn fixed_text(f: Fixed) -> Seq<char> {
    match f {
        Fixed::CmdJsonError => "{\"error\": \"cmd json error\"}"@,
        Fixed::InputError => "{\"error\": \"ios json input error\"}"@,
        Fixed::UpgradeError => "{\"error\":\"upgrade error\"}"@,
        Fixed::NoMatch => "{\"error\": \"cmd no match\"}"@,
        Fixed::ServerStarted => "{\"server\": \"started\"}"@,
        Fixed::ServerError => "{\"error\":\"server error\"}"@,
        Fixed::ClientSyncError => "{\"error\":\"client-sync error\"}"@,
        Fixed::ClientStopServerError => "{\"error\":\"client-stop-server error\"}"@,
        Fixed::AiUnavailable => "{\"error\":\"AI backend not available. Make sure Ollama is running.\"}"@,
    }
}

/// The text of a fixed answer.
pub fn fixed(f: Fixed) -> (r: String)
    ensures
        r@ == fixed_text(f),
{
    match f {
        Fixed::CmdJsonError => String::from_str("{\"error\": \"cmd json error\"}"),
        Fixed::InputError => String::from_str("{\"error\": \"ios json input error\"}"),
        Fixed::UpgradeError => String::from_str("{\"error\":\"upgrade error\"}"),
        Fixed::NoMatch => String::from_str("{\"error\": \"cmd no match\"}"),
        Fixed::ServerStarted => String::from_str("{\"server\": \"started\"}"),
        Fixed::ServerError => String::from_str("{\"error\":\"server error\"}"),
        Fixed::ClientSyncError => String::from_str("{\"error\":\"client-sync error\"}"),
        Fixed::ClientStopServerError => String::from_str(
            "{\"error\":\"client-stop-server error\"}",
        ),
        Fixed::AiUnavailable => String::from_str(
            "{\"error\":\"AI backend not available. Make sure Ollama is running.\"}",
        ),
    }
}

/// The answer to a search: the match count and the notes' JSON array.
pub open spec fn search_response_text(count: u32, notes_json: Seq<char>) -> Seq<char> {
    "{\"count\": "@ + decimal(count as nat) + ", \"notes\":"@ + notes_json + "}"@
}

/// The answer to a search: the match count and the notes' JSON array.
pub fn search_response(count: u32, notes_json: &str) -> (r: String)
    ensures
        r@ == search_response_text(count, notes_json@),
{
    let mut r = String::from_str("{\"count\": ");
    r.append(decimal_string(count as u64).as_str());
    r.append(", \"notes\":");
    r.append(notes_json);
    r.append("}");
    r
}

/// The answer to a listing: the notes' JSON array.
pub fn select_response(notes_json: &str) -> (r: String)
    ensures
        r@ == "{\"notes\":"@ + notes_json@ + "}"@,
{
    let mut r = String::from_str("{\"notes\":");
    r.append(notes_json);
    r.append("}");
    r
}

/// A one-field answer `{"key": "value"}`, the value written as it is.
pub open spec fn reply_text(key: Seq<char>, value: Seq<char>) -> Seq<char> {
    "{\""@ + key + "\": \""@ + value + "\"}"@
}

/// A one-field answer `{"key": "value"}`, the value written as it is.
pub fn reply(key: &str, value: &str) -> (r: String)
    ensures
        r@ == reply_text(key@, value@),
{
    let mut r = String::from_str("{\"");
    r.append(key);
    r.append("\": \"");
    r.append(value);
    r.append("\"}");
    r
}

/// The answer to an embedding sync: its status, or its error.
pub fn sync_embeddings_response(result: Result<String, String>) -> (r: String)
    ensures
        match result {
            Ok(m) => r@ == reply_text("status"@, m@),
            Err(e) => r@ == reply_text("error"@, e@),
        },
{
    match result {
        Ok(m) => reply("status", m.as_str()),
        Err(e) => reply("error", e.as_str()),
    }
}

/// The answer to a server start.
pub fn server_response(started: bool) -> (r: String)
    ensures
        started ==> r@ == fixed_text(Fixed::ServerStarted),
        !started ==> r@ == fixed_text(Fixed::ServerError),
{
    if started {
        fixed(Fixed::ServerStarted)
    } else {
        fixed(Fixed::ServerError)
    }
}

/// The answer to a client sync: the sync's reply, or the failure.
pub fn client_sync_response(result: Result<String, String>) -> (r: String)
    ensures
        match result {
            Ok(m) => r@ == reply_text("client-sync"@, m@),
            Err(_) => r@ == fixed_text(Fixed::ClientSyncError),
        },
{
    match result {
        Ok(m) => reply("client-sync", m.as_str()),
        Err(_) => fixed(Fixed::ClientSyncError),
    }
}

/// The answer to a request to stop a server: its reply, or the failure.
pub fn client_stop_server_response(result: Result<String, String>) -> (r: String)
    ensures
        match result {
            Ok(m) => r@ == reply_text("client-stop-server"@, m@),
            Err(_) => r@ == fixed_text(Fixed::ClientStopServerError),
        },
{
    match result {
        Ok(m) => reply("client-stop-server", m.as_str()),
        Err(_) => fixed(Fixed::ClientStopServerError),
    }
}

/// The answer to a batch command: `{"processed":P,"errors":E,"message":"M"}`.
pub open spec fn batch_response_text(processed: u32, errors: u32, message: Seq<char>) -> Seq<char> {
    "{\"processed\":"@ + decimal(processed as nat) + ",\"errors\":"@ + decimal(errors as nat)
        + ",\"message\":\""@ + message + "\"}"@
}

/// The answer to a batch command.
pub fn batch_response(processed: u32, errors: u32, message: &str) -> (r: String)
    ensures
        r@ == batch_response_text(processed, errors, message@),
{
    let mut r = String::from_str("{\"processed\":");
    r.append(decimal_string(processed as u64).as_str());
    r.append(",\"errors\":");
    r.append(decimal_string(errors as u64).as_str());
    r.append(",\"message\":\"");
    r.append(message);
    r.append("\"}");
    r
}

/// The answer to a batch command that found nothing to do:
/// `{"processed":0,"message":"M"}`.
pub open spec fn nothing_to_do_text(message: Seq<char>) -> Seq<char> {
    "{\"processed\":0,\"message\":\""@ + message + "\"}"@
}

/// The answer to a batch command that found nothing to do.
pub fn nothing_to_do_response(message: &str) -> (r: String)
    ensures
        r@ == nothing_to_do_text(message@),
{
    let mut r = String::from_str("{\"processed\":0,\"message\":\"");
    r.append(message);
    r.append("\"}");
    r
}

} // verus!
