//! The AI actions of the command protocol: what each one asks the backend,
//! what it answers, and which AI fields of which notes it has stored.
//!
//! The notes come from the database and the updates go back to it through
//! the application; the backend is whatever implements `AiBackend`. Each
//! batch action collects the backend's answers, and a tally function, with
//! an exact contract, decides what the answers amount to.
use crate::ai::{ai_error_text, clone_opt, opt_str, AiBackend, AiConfig, AiError, AiResult};
use crate::command::{
    batch_response, batch_response_text, fixed, fixed_text, nothing_to_do_response,
    nothing_to_do_text, Fixed,
};
use crate::foreign::{json_string_array, to_json_string_array};
use crate::query::{decimal, decimal_string, i64_string, signed_decimal};
use crate::text::string_views;
use crate::types::{
    AiEmbedResponse, AiSummarizeResponse, AiTagsResponse, CmdAiEmbed, CmdAiEmbedAll,
    CmdAiSummarize, CmdAiTag, CmdAiTagAll, Note, CmdAiOrganize, AiOrganizeResponse,
};
use crate::foreign::str_eq;
use vstd::prelude::*;

verus! {

/// The message of an answer when no backend answers.
pub open spec fn unavailable_text() -> Seq<char> {
    "AI backend not available. Make sure Ollama is running."@
}

fn unavailable_message() -> (r: String)
    ensures
        r@ == unavailable_text(),
{
    String::from_str("AI backend not available. Make sure Ollama is running.")
}

/// `Note with rowid {rowid} not found`.
pub open spec fn missing_note_text(rowid: i64) -> Seq<char> {
    "Note with rowid "@ + signed_decimal(rowid as int) + " not found"@
}

fn missing_note_message(rowid: i64) -> (r: String)
    ensures
        r@ == missing_note_text(rowid),
{
    let mut r = String::from_str("Note with rowid ");
    r.append(i64_string(rowid).as_str());
    r.append(" not found");
    r
}

/// The configuration of an AI command: its endpoint and model, the rest
/// as by default.
pub open spec fn command_config(c: AiConfig, endpoint: Option<String>, model: Option<String>) -> bool {
    &&& opt_str(c.endpoint) == opt_str(endpoint)
    &&& opt_str(c.model) == opt_str(model)
    &&& c.max_tokens == Some(256u32)
    &&& c.temperature_milli == Some(300u32)
    &&& c.timeout_secs == Some(30u64)
    &&& c.tagging_model is None
    &&& c.summarize_model is None
    &&& c.embedding_model is None
    &&& c.categorize_model is None
    &&& c.reasoning_effort is None
}

/// The configuration of an AI command: its endpoint and model, the rest
/// as by default.
pub fn config_for(endpoint: &Option<String>, model: &Option<String>) -> (r: AiConfig)
    ensures
        command_config(r, *endpoint, *model),
{
    let d = AiConfig::default();
    AiConfig {
        endpoint: clone_opt(endpoint),
        model: clone_opt(model),
        max_tokens: d.max_tokens,
        temperature_milli: d.temperature_milli,
        timeout_secs: d.timeout_secs,
        tagging_model: d.tagging_model,
        summarize_model: d.summarize_model,
        embedding_model: d.embedding_model,
        categorize_model: d.categorize_model,
        reasoning_effort: d.reasoning_effort,
    }
}

/// The number of notes a batch takes: the command's limit, 50 by default.
pub fn batch_limit(limit: Option<u32>) -> (r: u32)
    ensures
        r == match limit {
            Some(l) => l,
            None => 50u32,
        },
{
    match limit {
        Some(l) => l,
        None => 50,
    }
}

// ----------------------------------------------------------------------------
// Tags for one text.
// ----------------------------------------------------------------------------

/// The answer when no backend answers.
pub fn unavailable_tags_response() -> (r: AiTagsResponse)
    ensures
        !r.available,
        r.tags@.len() == 0,
        opt_str(r.error) == Some(unavailable_text()),
{
    AiTagsResponse { tags: Vec::new(), available: false, error: Some(unavailable_message()) }
}

/// The answer to a tag request from the backend's result: the tags, or
/// none with the error.
pub open spec fn tags_response_is(r: AiTagsResponse, result: AiResult<Vec<String>>) -> bool {
    &&& r.available
    &&& match result {
        Ok(t) => r.tags@ == t@ && r.error is None,
        Err(e) => r.tags@.len() == 0 && opt_str(r.error) == Some(ai_error_text(e)),
    }
}

/// The answer to a tag request from the backend's result.
pub fn tags_response(result: AiResult<Vec<String>>) -> (r: AiTagsResponse)
    ensures
        tags_response_is(r, result),
{
    match result {
        Ok(tags) => AiTagsResponse { tags, available: true, error: None },
        Err(e) => AiTagsResponse { tags: Vec::new(), available: true, error: Some(e.message()) },
    }
}

/// Suggest tags for a command's text: the backend's tags for the text under
/// the command's configuration, or why there are none.
pub fn do_ai_tag<B: AiBackend>(backend: &B, cmd: &CmdAiTag) -> (r: AiTagsResponse)
    ensures
        backend.available_answer(r.available),
        !r.available ==> r.tags@.len() == 0 && opt_str(r.error) == Some(unavailable_text()),
        r.available ==> exists|res: AiResult<Vec<String>>, c: AiConfig|
            #[trigger] backend.tags_answer(cmd.text@, c, res) && command_config(
                c,
                cmd.endpoint,
                cmd.model,
            ) && tags_response_is(r, res),
{
    let config = config_for(&cmd.endpoint, &cmd.model);
    if !backend.is_available() {
        return unavailable_tags_response();
    }
    let res = backend.suggest_tags(cmd.text.as_str(), &config);
    let ghost g = res;
    let r = tags_response(res);
    assert(backend.tags_answer(cmd.text@, config, g));
    r
}

// ----------------------------------------------------------------------------
// Summary of one note.
// ----------------------------------------------------------------------------

/// The answer when no backend answers.
pub fn unavailable_summary_response() -> (r: AiSummarizeResponse)
    ensures
        !r.available,
        r.summary is None,
        opt_str(r.error) == Some(unavailable_text()),
{
    AiSummarizeResponse { summary: None, available: false, error: Some(unavailable_message()) }
}

/// The answer to a summary request: `None` when the note was not found,
/// else the backend's result.
pub open spec fn summary_response_is(
    r: AiSummarizeResponse,
    rowid: i64,
    result: Option<AiResult<String>>,
) -> bool {
    &&& r.available
    &&& match result {
        None => r.summary is None && opt_str(r.error) == Some(missing_note_text(rowid)),
        Some(Ok(s)) => opt_str(r.summary) == Some(s@) && r.error is None,
        Some(Err(e)) => r.summary is None && opt_str(r.error) == Some(ai_error_text(e)),
    }
}

/// The answer to a summary request: `None` when the note was not found,
/// else the backend's result.
pub fn summary_response(rowid: i64, result: Option<AiResult<String>>) -> (r: AiSummarizeResponse)
    ensures
        summary_response_is(r, rowid, result),
{
    match result {
        None => AiSummarizeResponse {
            summary: None,
            available: true,
            error: Some(missing_note_message(rowid)),
        },
        Some(Ok(s)) => AiSummarizeResponse { summary: Some(s), available: true, error: None },
        Some(Err(e)) => AiSummarizeResponse {
            summary: None,
            available: true,
            error: Some(e.message()),
        },
    }
}

/// Summarize the note a command names, whose text `txt` was looked up
/// (`None`: no such note). Also gives the summary to store for the note.
pub fn do_ai_summarize<B: AiBackend>(
    backend: &B,
    cmd: &CmdAiSummarize,
    txt: Option<String>,
) -> (r: (AiSummarizeResponse, Option<String>))
    ensures
        backend.available_answer(r.0.available),
        !r.0.available ==> r.1 is None && r.0.summary is None && opt_str(r.0.error) == Some(
            unavailable_text(),
        ),
        r.0.available && txt is None ==> r.1 is None && summary_response_is(r.0, cmd.rowid, None),
        r.0.available && txt is Some ==> exists|res: AiResult<String>, c: AiConfig|
            #[trigger] backend.summary_answer(txt->0@, c, res) && command_config(
                c,
                cmd.endpoint,
                cmd.model,
            ) && summary_response_is(r.0, cmd.rowid, Some(res)),
        opt_str(r.0.summary) == opt_str(r.1),
        r.1 is Some ==> r.0.error is None,
{
    let config = config_for(&cmd.endpoint, &cmd.model);
    if !backend.is_available() {
        return (unavailable_summary_response(), None);
    }
    match txt {
        None => (summary_response(cmd.rowid, None), None),
        Some(text) => {
            let result = backend.summarize(text.as_str(), &config);
            let ghost g = result;
            let stored = match &result {
                Ok(s) => Some(s.clone()),
                Err(_) => None,
            };
            let r = summary_response(cmd.rowid, Some(result));
            assert(backend.summary_answer(text@, config, g));
            (r, stored)
        },
    }
}

// ----------------------------------------------------------------------------
// Embedding of one note.
// ----------------------------------------------------------------------------

/// The model an embedding is stored under: the configured model, else
/// `unknown`.
pub fn model_id_of(config: &AiConfig) -> (r: String)
    ensures
        r@ == match config.model {
            Some(m) => m@,
            None => "unknown"@,
        },
{
    match &config.model {
        Some(m) => m.clone(),
        None => String::from_str("unknown"),
    }
}

/// The answer when no backend answers.
pub fn unavailable_embed_response() -> (r: AiEmbedResponse)
    ensures
        !r.success,
        !r.available,
        opt_str(r.error) == Some(unavailable_text()),
{
    AiEmbedResponse { success: false, available: false, error: Some(unavailable_message()) }
}

/// The answer to an embedding request: `None` when the note was not found,
/// else the backend's result.
pub open spec fn embed_response_is<E>(r: AiEmbedResponse, rowid: i64, result: Option<AiResult<E>>) -> bool {
    &&& r.available
    &&& match result {
        None => !r.success && opt_str(r.error) == Some(missing_note_text(rowid)),
        Some(Ok(_)) => r.success && r.error is None,
        Some(Err(err)) => !r.success && opt_str(r.error) == Some(ai_error_text(err)),
    }
}

/// The answer to an embedding request: `None` when the note was not found,
/// else the backend's result; with the embedding to store, if any.
pub fn embed_response<E>(rowid: i64, result: Option<AiResult<E>>) -> (r: (AiEmbedResponse, Option<E>))
    ensures
        embed_response_is(r.0, rowid, result),
        r.1 == match result {
            Some(Ok(e)) => Some(e),
            _ => None,
        },
{
    match result {
        None => (
            AiEmbedResponse {
                success: false,
                available: true,
                error: Some(missing_note_message(rowid)),
            },
            None,
        ),
        Some(Ok(e)) => (AiEmbedResponse { success: true, available: true, error: None }, Some(e)),
        Some(Err(err)) => (
            AiEmbedResponse { success: false, available: true, error: Some(err.message()) },
            None,
        ),
    }
}

/// Embed the note a command names, whose text `txt` was looked up (`None`:
/// no such note). Also gives the embedding to store and its model.
pub fn do_ai_embed<B: AiBackend>(backend: &B, cmd: &CmdAiEmbed, txt: Option<String>) -> (r: (
    AiEmbedResponse,
    Option<(B::Embedding, String)>,
))
    ensures
        backend.available_answer(r.0.available),
        !r.0.available ==> !r.0.success && r.1 is None && opt_str(r.0.error) == Some(
            unavailable_text(),
        ),
        r.0.available && txt is None ==> r.1 is None && embed_response_is::<B::Embedding>(
            r.0,
            cmd.rowid,
            None,
        ),
        r.0.available && txt is Some ==> exists|res: AiResult<B::Embedding>, c: AiConfig|
            #[trigger] backend.embed_answer(txt->0@, c, res) && command_config(
                c,
                cmd.endpoint,
                cmd.model,
            ) && embed_response_is(r.0, cmd.rowid, Some(res)) && match res {
                Ok(e) => r.1 matches Some(p) && p.0 == e,
                Err(_) => r.1 is None,
            },
        r.0.success == r.1 is Some,
        r.1 matches Some(p) ==> p.1@ == match cmd.model {
            Some(m) => m@,
            None => "unknown"@,
        },
{
    let config = config_for(&cmd.endpoint, &cmd.model);
    if !backend.is_available() {
        return (unavailable_embed_response(), None);
    }
    match txt {
        None => {
            let (resp, _none) = embed_response::<B::Embedding>(cmd.rowid, None);
            (resp, None)
        },
        Some(text) => {
            let result = backend.embed(text.as_str(), &config);
            let ghost g = result;
            let (resp, stored) = embed_response(cmd.rowid, Some(result));
            assert(backend.embed_answer(text@, config, g));
            match stored {
                Some(e) => (resp, Some((e, model_id_of(&config)))),
                None => (resp, None),
            }
        },
    }
}

// ----------------------------------------------------------------------------
// Batch tagging.
// ----------------------------------------------------------------------------

/// The strings of optional string lists.
pub open spec fn opt_list_views(v: Seq<Option<Vec<String>>>) -> Seq<Option<Seq<Seq<char>>>> {
    v.map_values(
        |o: Option<Vec<String>>|
            match o {
                Some(t) => Some(string_views(t@)),
                None => None,
            },
    )
}

/// The views of (rowid, text) pairs.
pub open spec fn pair_views(v: Seq<(i64, String)>) -> Seq<(i64, Seq<char>)> {
    v.map_values(|p: (i64, String)| (p.0, p.1@))
}

/// What the backend's answers for the notes of a batch amount to: the
/// number tagged, the number failed, and the tags (as JSON) to store per
/// note, in order.
pub open spec fn tag_tally(notes: Seq<Note>, results: Seq<Option<Seq<Seq<char>>>>) -> (
    nat,
    nat,
    Seq<(i64, Seq<char>)>,
)
    decreases results.len(),
{
    if results.len() == 0 {
        (0, 0, seq![])
    } else {
        let prev = tag_tally(notes, results.drop_last());
        let i = results.len() - 1;
        match results.last() {
            Some(tags) => (prev.0 + 1, prev.1, prev.2.push((notes[i].rowid, json_string_array(tags)))),
            None => (prev.0, prev.1 + 1, prev.2),
        }
    }
}

proof fn lemma_tag_tally_counts(notes: Seq<Note>, results: Seq<Option<Seq<Seq<char>>>>)
    ensures
        tag_tally(notes, results).0 + tag_tally(notes, results).1 == results.len(),
        tag_tally(notes, results).2.len() == tag_tally(notes, results).0,
    decreases results.len(),
{
    if results.len() > 0 {
        lemma_tag_tally_counts(notes, results.drop_last());
    }
}

/// Tally the backend's answers for the notes of a batch (`None`: failed).
pub fn tally_tags(notes: &Vec<Note>, results: &Vec<Option<Vec<String>>>) -> (r: (
    u32,
    u32,
    Vec<(i64, String)>,
))
    requires
        results@.len() == notes@.len(),
        notes@.len() <= u32::MAX,
    ensures
        (r.0 as nat, r.1 as nat, pair_views(r.2@)) == tag_tally(notes@, opt_list_views(results@)),
{
    let ghost rv = opt_list_views(results@);
    let mut processed: u32 = 0;
    let mut errors: u32 = 0;
    let mut updates: Vec<(i64, String)> = Vec::new();
    let mut i: usize = 0;
    assert(rv.take(0) =~= Seq::<Option<Seq<Seq<char>>>>::empty());
    while i < results.len()
        invariant
            i <= results.len(),
            results@.len() == notes@.len(),
            notes@.len() <= u32::MAX,
            rv == opt_list_views(results@),
            (processed as nat, errors as nat, pair_views(updates@)) == tag_tally(
                notes@,
                rv.take(i as int),
            ),
        decreases results.len() - i,
    {
        proof {
            lemma_tag_tally_counts(notes@, rv.take(i as int));
            assert(rv.take(i + 1).drop_last() =~= rv.take(i as int));
        }
        match &results[i] {
            Some(tags) => {
                let json = to_json_string_array(tags);
                let ghost before = pair_views(updates@);
                updates.push((notes[i].rowid, json));
                assert(pair_views(updates@) =~= before.push((notes@[i as int].rowid, json@)));
                processed += 1;
            },
            None => {
                errors += 1;
            },
        }
        i += 1;
    }
    assert(rv.take(results.len() as int) =~= rv);
    (processed, errors, updates)
}

/// The tags a tag answer gives, `None` for a failure.
pub open spec fn tags_of(res: AiResult<Vec<String>>) -> Option<Seq<Seq<char>>> {
    match res {
        Ok(t) => Some(string_views(t@)),
        Err(_) => None,
    }
}

/// Whether `ress` holds, note by note, answers the backend may give to tag
/// requests for the notes' texts under `c`.
pub open spec fn tag_answers<B: AiBackend>(
    backend: &B,
    notes: Seq<Note>,
    c: AiConfig,
    ress: Seq<AiResult<Vec<String>>>,
) -> bool {
    &&& ress.len() == notes.len()
    &&& forall|i: int| 0 <= i < notes.len() ==> backend.tags_answer(notes[i].txt@, c, #[trigger] ress[i])
}

/// Tag every note of a batch (notes without AI tags, at most the
/// command's limit), each with the backend's answer for its text under the
/// command's configuration. Gives the answer and the tags to store per note.
pub fn do_ai_tag_all<B: AiBackend>(backend: &B, cmd: &CmdAiTagAll, notes: &Vec<Note>) -> (r: (
    String,
    Vec<(i64, String)>,
))
    requires
        notes@.len() <= u32::MAX,
    ensures
        (backend.available_answer(false) && r.0@ == fixed_text(Fixed::AiUnavailable) && r.1@.len()
            == 0) || (backend.available_answer(true) && notes@.len() == 0 && r.0@
            == nothing_to_do_text("No notes without AI tags"@) && r.1@.len() == 0) || (
        backend.available_answer(true) && notes@.len() > 0 && exists|
            ress: Seq<AiResult<Vec<String>>>,
            c: AiConfig,
        |
            #[trigger] tag_answers(backend, notes@, c, ress) && command_config(
                c,
                cmd.endpoint,
                cmd.model,
            ) && tag_tally(notes@, ress.map_values(|x: AiResult<Vec<String>>| tags_of(x))).2
                == pair_views(r.1@) && r.0@ == batch_response_text(
                tag_tally(notes@, ress.map_values(|x: AiResult<Vec<String>>| tags_of(x))).0 as u32,
                tag_tally(notes@, ress.map_values(|x: AiResult<Vec<String>>| tags_of(x))).1 as u32,
                "Batch tagging complete"@,
            )),
{
    let config = config_for(&cmd.endpoint, &cmd.model);
    if !backend.is_available() {
        return (fixed(Fixed::AiUnavailable), Vec::new());
    }
    if notes.len() == 0 {
        return (nothing_to_do_response("No notes without AI tags"), Vec::new());
    }
    let mut results: Vec<Option<Vec<String>>> = Vec::new();
    let ghost mut ress: Seq<AiResult<Vec<String>>> = Seq::empty();
    let mut i: usize = 0;
    while i < notes.len()
        invariant
            i <= notes.len(),
            results@.len() == i,
            ress.len() == i,
            forall|k: int| 0 <= k < i ==> backend.tags_answer(notes@[k].txt@, config, #[trigger] ress[k]),
            opt_list_views(results@) == ress.map_values(|x: AiResult<Vec<String>>| tags_of(x)),
        decreases notes.len() - i,
    {
        let res = backend.suggest_tags(notes[i].txt.as_str(), &config);
        let ghost g = res;
        let outcome = match res {
            Ok(tags) => Some(tags),
            Err(_) => None,
        };
        let ghost before = opt_list_views(results@);
        results.push(outcome);
        proof {
            ress = ress.push(g);
            assert(opt_list_views(results@) =~= ress.map_values(|x: AiResult<Vec<String>>| tags_of(x)))
                by {
                assert(opt_list_views(results@) =~= before.push(tags_of(g)));
            }
        }
        i += 1;
    }
    let (processed, errors, updates) = tally_tags(notes, &results);
    let text = batch_response(processed, errors, "Batch tagging complete");
    proof {
        assert(tag_answers(backend, notes@, config, ress));
    }
    (text, updates)
}

// ----------------------------------------------------------------------------
// Batch embedding.
// ----------------------------------------------------------------------------

/// What the backend's embeddings for the notes of a batch amount to: the
/// number embedded, the number failed, and the embeddings to store per
/// note, in order.
pub open spec fn embed_tally<E>(notes: Seq<Note>, results: Seq<Option<E>>) -> (nat, nat, Seq<
    (i64, E),
>)
    decreases results.len(),
{
    if results.len() == 0 {
        (0, 0, seq![])
    } else {
        let prev = embed_tally(notes, results.drop_last());
        let i = results.len() - 1;
        match results.last() {
            Some(e) => (prev.0 + 1, prev.1, prev.2.push((notes[i].rowid, e))),
            None => (prev.0, prev.1 + 1, prev.2),
        }
    }
}

proof fn lemma_embed_tally_counts<E>(notes: Seq<Note>, results: Seq<Option<E>>)
    ensures
        embed_tally(notes, results).0 + embed_tally(notes, results).1 == results.len(),
    decreases results.len(),
{
    if results.len() > 0 {
        lemma_embed_tally_counts(notes, results.drop_last());
    }
}

/// Tally the backend's embeddings for the notes of a batch (`None`:
/// failed).
pub fn tally_embeddings<E>(notes: &Vec<Note>, results: Vec<Option<E>>) -> (r: (
    u32,
    u32,
    Vec<(i64, E)>,
))
    requires
        results@.len() == notes@.len(),
        notes@.len() <= u32::MAX,
    ensures
        (r.0 as nat, r.1 as nat, r.2@) == embed_tally(notes@, results@),
{
    let ghost rv = results@;
    let mut rest = results;
    let mut processed: u32 = 0;
    let mut errors: u32 = 0;
    let mut updates: Vec<(i64, E)> = Vec::new();
    let mut i: usize = 0;
    assert(rv.take(0) =~= Seq::<Option<E>>::empty());
    assert(rv.skip(0) =~= rv);
    while i < notes.len()
        invariant
            i <= notes.len(),
            rv.len() == notes@.len(),
            notes@.len() <= u32::MAX,
            rest@ == rv.skip(i as int),
            (processed as nat, errors as nat, updates@) == embed_tally(notes@, rv.take(i as int)),
        decreases notes.len() - i,
    {
        proof {
            lemma_embed_tally_counts(notes@, rv.take(i as int));
            assert(rv.take(i + 1).drop_last() =~= rv.take(i as int));
            assert(rv.take(i + 1).last() == rv[i as int]);
        }
        let item = rest.remove(0);
        assert(rest@ =~= rv.skip(i + 1));
        match item {
            Some(e) => {
                updates.push((notes[i].rowid, e));
                processed += 1;
            },
            None => {
                errors += 1;
            },
        }
        i += 1;
    }
    assert(rv.take(notes.len() as int) =~= rv);
    (processed, errors, updates)
}

/// The embedding an embedding answer gives, `None` for a failure.
pub open spec fn embedding_of_answer<E>(res: AiResult<E>) -> Option<E> {
    match res {
        Ok(e) => Some(e),
        Err(_) => None,
    }
}

/// Whether `ress` holds, note by note, answers the backend may give to
/// embedding requests for the notes' texts under `c`.
pub open spec fn embed_answers<B: AiBackend>(
    backend: &B,
    notes: Seq<Note>,
    c: AiConfig,
    ress: Seq<AiResult<B::Embedding>>,
) -> bool {
    &&& ress.len() == notes.len()
    &&& forall|i: int| 0 <= i < notes.len() ==> backend.embed_answer(notes[i].txt@, c, #[trigger] ress[i])
}

/// Embed every note of a batch (notes without embeddings, at most the
/// command's limit), each with the backend's answer for its text under the
/// command's configuration. Gives the answer, the model the embeddings are
/// stored under, and the embeddings to store per note.
pub fn do_ai_embed_all<B: AiBackend>(backend: &B, cmd: &CmdAiEmbedAll, notes: &Vec<Note>) -> (r: (
    String,
    String,
    Vec<(i64, B::Embedding)>,
))
    requires
        notes@.len() <= u32::MAX,
    ensures
        r.1@ == match cmd.model {
            Some(m) => m@,
            None => "unknown"@,
        },
        (backend.available_answer(false) && r.0@ == fixed_text(Fixed::AiUnavailable) && r.2@.len()
            == 0) || (backend.available_answer(true) && notes@.len() == 0 && r.0@
            == nothing_to_do_text("No notes without embeddings"@) && r.2@.len() == 0) || (
        backend.available_answer(true) && notes@.len() > 0 && exists|
            ress: Seq<AiResult<B::Embedding>>,
            c: AiConfig,
        |
            #[trigger] embed_answers(backend, notes@, c, ress) && command_config(
                c,
                cmd.endpoint,
                cmd.model,
            ) && embed_tally(notes@, ress.map_values(|x: AiResult<B::Embedding>| embedding_of_answer(x))).2
                == r.2@ && r.0@ == batch_response_text(
                embed_tally(notes@, ress.map_values(|x: AiResult<B::Embedding>| embedding_of_answer(x))).0 as u32,
                embed_tally(notes@, ress.map_values(|x: AiResult<B::Embedding>| embedding_of_answer(x))).1 as u32,
                "Batch embedding complete"@,
            )),
{
    let config = config_for(&cmd.endpoint, &cmd.model);
    let model_id = model_id_of(&config);
    if !backend.is_available() {
        return (fixed(Fixed::AiUnavailable), model_id, Vec::new());
    }
    if notes.len() == 0 {
        return (nothing_to_do_response("No notes without embeddings"), model_id, Vec::new());
    }
    let mut results: Vec<Option<B::Embedding>> = Vec::new();
    let ghost mut ress: Seq<AiResult<B::Embedding>> = Seq::empty();
    let mut i: usize = 0;
    while i < notes.len()
        invariant
            i <= notes.len(),
            results@.len() == i,
            ress.len() == i,
            forall|k: int| 0 <= k < i ==> backend.embed_answer(notes@[k].txt@, config, #[trigger] ress[k]),
            results@ == ress.map_values(|x: AiResult<B::Embedding>| embedding_of_answer(x)),
        decreases notes.len() - i,
    {
        let res = backend.embed(notes[i].txt.as_str(), &config);
        let ghost g = res;
        let outcome = match res {
            Ok(e) => Some(e),
            Err(_) => None,
        };
        let ghost before = results@;
        results.push(outcome);
        proof {
            ress = ress.push(g);
            assert(results@ =~= ress.map_values(|x: AiResult<B::Embedding>| embedding_of_answer(x))) by {
                assert(results@ =~= before.push(embedding_of_answer(g)));
            }
        }
        i += 1;
    }
    let ghost rs = results@;
    let (processed, errors, updates) = tally_embeddings(notes, results);
    let text = batch_response(processed, errors, "Batch embedding complete");
    assert(embed_tally(notes@, rs).2 == updates@);
    assert(embed_answers(backend, notes@, config, ress));
    (text, model_id, updates)
}

// ----------------------------------------------------------------------------
// Reprocessing.
// ----------------------------------------------------------------------------

/// The AI fields of a note.
#[derive(Debug, Clone, Copy, PartialEq, Eq, Structural)]
pub enum AiField {
    Tags,
    Summary,
    Category,
}

/// A value to store in an AI field of a note.
#[derive(Debug, Clone)]
pub struct NoteUpdate {
    pub rowid: i64,
    pub field: AiField,
    pub value: String,
}

/// The views of updates.
pub open spec fn update_views(v: Seq<NoteUpdate>) -> Seq<(i64, AiField, Seq<char>)> {
    v.map_values(|u: NoteUpdate| (u.rowid, u.field, u.value@))
}

/// The backend's answers for one note: its tags (`None`: failed) and, when
/// there were tags, its summary (`None`: failed).
#[derive(Debug, Clone)]
pub struct ReprocessOutcome {
    pub tags: Option<Vec<String>>,
    pub summary: Option<String>,
}

/// The views of reprocessing answers.
pub open spec fn outcome_views(v: Seq<ReprocessOutcome>) -> Seq<
    (Option<Seq<Seq<char>>>, Option<Seq<char>>),
> {
    v.map_values(
        |o: ReprocessOutcome|
            (
                match o.tags {
                    Some(t) => Some(string_views(t@)),
                    None => None,
                },
                opt_str(o.summary),
            ),
    )
}

/// What reprocessing answers amount to: notes done (their tags answered),
/// notes failed, and the updates: per note done, its tags, then its summary
/// when one was answered.
pub open spec fn reprocess_tally(
    rowids: Seq<i64>,
    outcomes: Seq<(Option<Seq<Seq<char>>>, Option<Seq<char>>)>,
) -> (nat, nat, Seq<(i64, AiField, Seq<char>)>)
    decreases outcomes.len(),
{
    if outcomes.len() == 0 {
        (0, 0, seq![])
    } else {
        let prev = reprocess_tally(rowids, outcomes.drop_last());
        let i = outcomes.len() - 1;
        let o = outcomes.last();
        match o.0 {
            Some(tags) => {
                let with_tags = prev.2.push((rowids[i], AiField::Tags, json_string_array(tags)));
                (
                    prev.0 + 1,
                    prev.1,
                    match o.1 {
                        Some(s) => with_tags.push((rowids[i], AiField::Summary, s)),
                        None => with_tags,
                    },
                )
            },
            None => (prev.0, prev.1 + 1, prev.2),
        }
    }
}

proof fn lemma_reprocess_counts(
    rowids: Seq<i64>,
    outcomes: Seq<(Option<Seq<Seq<char>>>, Option<Seq<char>>)>,
)
    ensures
        reprocess_tally(rowids, outcomes).0 + reprocess_tally(rowids, outcomes).1 == outcomes.len(),
    decreases outcomes.len(),
{
    if outcomes.len() > 0 {
        lemma_reprocess_counts(rowids, outcomes.drop_last());
    }
}

/// The rowids of (rowid, text) pairs.
pub open spec fn rowids_of(v: Seq<(i64, String)>) -> Seq<i64> {
    v.map_values(|p: (i64, String)| p.0)
}

/// Tally reprocessing answers.
pub fn tally_reprocess(notes: &Vec<(i64, String)>, outcomes: &Vec<ReprocessOutcome>) -> (r: (
    u32,
    u32,
    Vec<NoteUpdate>,
))
    requires
        outcomes@.len() == notes@.len(),
        notes@.len() <= u32::MAX,
    ensures
        (r.0 as nat, r.1 as nat, update_views(r.2@)) == reprocess_tally(
            rowids_of(notes@),
            outcome_views(outcomes@),
        ),
{
    let ghost ov = outcome_views(outcomes@);
    let ghost ids = rowids_of(notes@);
    let mut processed: u32 = 0;
    let mut errors: u32 = 0;
    let mut updates: Vec<NoteUpdate> = Vec::new();
    let mut i: usize = 0;
    assert(ov.take(0) =~= Seq::<(Option<Seq<Seq<char>>>, Option<Seq<char>>)>::empty());
    while i < outcomes.len()
        invariant
            i <= outcomes.len(),
            outcomes@.len() == notes@.len(),
            notes@.len() <= u32::MAX,
            ov == outcome_views(outcomes@),
            ids == rowids_of(notes@),
            (processed as nat, errors as nat, update_views(updates@)) == reprocess_tally(
                ids,
                ov.take(i as int),
            ),
        decreases outcomes.len() - i,
    {
        proof {
            lemma_reprocess_counts(ids, ov.take(i as int));
            assert(ov.take(i + 1).drop_last() =~= ov.take(i as int));
            assert(ov.take(i + 1).last() == ov[i as int]);
        }
        let rowid = notes[i].0;
        match &outcomes[i].tags {
            Some(tags) => {
                let json = to_json_string_array(tags);
                let ghost before = update_views(updates@);
                updates.push(NoteUpdate { rowid, field: AiField::Tags, value: json });
                assert(update_views(updates@) =~= before.push((ids[i as int], AiField::Tags, json@)));
                match &outcomes[i].summary {
                    Some(s) => {
                        let ghost mid = update_views(updates@);
                        updates.push(NoteUpdate { rowid, field: AiField::Summary, value: s.clone() });
                        assert(update_views(updates@) =~= mid.push(
                            (ids[i as int], AiField::Summary, s@),
                        ));
                    },
                    None => {},
                }
                processed += 1;
            },
            None => {
                errors += 1;
            },
        }
        i += 1;
    }
    assert(ov.take(outcomes.len() as int) =~= ov);
    (processed, errors, updates)
}

/// `{"error":"Note {rowid} not found"}`.
pub open spec fn missing_reprocess_text(rowid: i64) -> Seq<char> {
    "{\"error\":\"Note "@ + signed_decimal(rowid as int) + " not found\"}"@
}

/// What reprocessing answers amount to per note: its tags (`None`: the tag
/// request failed) and, when there were tags, its summary (`None`: the
/// summary request failed).
pub open spec fn reprocess_results(
    trs: Seq<AiResult<Vec<String>>>,
    srs: Seq<AiResult<String>>,
) -> Seq<(Option<Seq<Seq<char>>>, Option<Seq<char>>)> {
    Seq::new(
        trs.len(),
        |i: int|
            (
                tags_of(trs[i]),
                match trs[i] {
                    Ok(_) => match srs[i] {
                        Ok(s) => Some(s@),
                        Err(_) => None,
                    },
                    Err(_) => None,
                },
            ),
    )
}

/// Whether `trs` and `srs` hold, note by note, answers the backend may give
/// to a tag request for the note's text under `c` and, when that answered
/// tags, to a summary request for it.
pub open spec fn reprocess_answers<B: AiBackend>(
    backend: &B,
    notes: Seq<(i64, String)>,
    c: AiConfig,
    trs: Seq<AiResult<Vec<String>>>,
    srs: Seq<AiResult<String>>,
) -> bool {
    &&& trs.len() == notes.len()
    &&& srs.len() == notes.len()
    &&& forall|i: int|
        0 <= i < notes.len() ==> backend.tags_answer(notes[i].1@, c, #[trigger] trs[i]) && (trs[i] is Ok
            ==> backend.summary_answer(notes[i].1@, c, srs[i]))
}

/// Regenerate the tags and summaries of notes with the default
/// configuration: of the note asked for (`Err(rowid)`: not found), or of
/// all notes. Gives the answer and the updates to store.
pub fn do_ai_reprocess<B: AiBackend>(backend: &B, targets: Result<Vec<(i64, String)>, i64>) -> (r: (
    String,
    Vec<NoteUpdate>,
))
    requires
        targets matches Ok(v) ==> v@.len() <= u32::MAX,
    ensures
        (backend.available_answer(false) && r.0@ == fixed_text(Fixed::AiUnavailable) && r.1@.len()
            == 0) || (backend.available_answer(true) && (targets matches Err(rowid) && r.0@
            == missing_reprocess_text(rowid) && r.1@.len() == 0)) || (backend.available_answer(true)
            && (targets matches Ok(v) && exists|
            trs: Seq<AiResult<Vec<String>>>,
            srs: Seq<AiResult<String>>,
            c: AiConfig,
        |
            #[trigger] reprocess_answers(backend, v@, c, trs, srs) && crate::ai::is_default_config(c)
                && reprocess_tally(rowids_of(v@), reprocess_results(trs, srs)).2 == update_views(r.1@)
                && r.0@ == batch_response_text(
                reprocess_tally(rowids_of(v@), reprocess_results(trs, srs)).0 as u32,
                reprocess_tally(rowids_of(v@), reprocess_results(trs, srs)).1 as u32,
                "AI reprocessing complete"@,
            ))),
{
    let config = AiConfig::default();
    if !backend.is_available() {
        return (fixed(Fixed::AiUnavailable), Vec::new());
    }
    match targets {
        Err(rowid) => {
            let mut text = String::from_str("{\"error\":\"Note ");
            text.append(i64_string(rowid).as_str());
            text.append(" not found\"}");
            (text, Vec::new())
        },
        Ok(notes) => {
            let mut outcomes: Vec<ReprocessOutcome> = Vec::new();
            let ghost mut trs: Seq<AiResult<Vec<String>>> = Seq::empty();
            let ghost mut srs: Seq<AiResult<String>> = Seq::empty();
            let mut i: usize = 0;
            while i < notes.len()
                invariant
                    i <= notes.len(),
                    outcomes@.len() == i,
                    trs.len() == i,
                    srs.len() == i,
                    forall|k: int|
                        0 <= k < i ==> backend.tags_answer(notes@[k].1@, config, #[trigger] trs[k]) && (
                        trs[k] is Ok ==> backend.summary_answer(notes@[k].1@, config, srs[k])),
                    outcome_views(outcomes@) == reprocess_results(trs, srs),
                decreases notes.len() - i,
            {
                let txt = notes[i].1.as_str();
                let tres = backend.suggest_tags(txt, &config);
                let ghost tg = tres;
                let ghost mut sg: AiResult<String> = Err(AiError::Timeout);
                let outcome = match tres {
                    Ok(tags) => {
                        let sres = backend.summarize(txt, &config);
                        proof {
                            sg = sres;
                        }
                        let summary = match sres {
                            Ok(s) => Some(s),
                            Err(_) => None,
                        };
                        ReprocessOutcome { tags: Some(tags), summary }
                    },
                    Err(_) => ReprocessOutcome { tags: None, summary: None },
                };
                let ghost before = outcome_views(outcomes@);
                outcomes.push(outcome);
                proof {
                    trs = trs.push(tg);
                    srs = srs.push(sg);
                    assert(outcome_views(outcomes@) =~= reprocess_results(trs, srs)) by {
                        assert(outcome_views(outcomes@) =~= before.push(reprocess_results(trs, srs)[i as int]));
                        assert forall|k: int| 0 <= k < i implies #[trigger] reprocess_results(trs, srs)[k]
                            == before[k] by {
                            assert(trs[k] == trs.drop_last()[k]);
                            assert(srs[k] == srs.drop_last()[k]);
                        }
                    }
                }
                i += 1;
            }
            let (processed, errors, updates) = tally_reprocess(&notes, &outcomes);
            let text = batch_response(processed, errors, "AI reprocessing complete");
            proof {
                assert(reprocess_answers(backend, notes@, config, trs, srs));
            }
            (text, updates)
        },
    }
}

// ----------------------------------------------------------------------------
// Organizing into categories.
// ----------------------------------------------------------------------------

/// The distinct texts of `s`, in order of first appearance.
pub open spec fn distinct_in_order(s: Seq<Seq<char>>) -> Seq<Seq<char>>
    decreases s.len(),
{
    if s.len() == 0 {
        seq![]
    } else {
        let p = distinct_in_order(s.drop_last());
        if p.contains(s.last()) {
            p
        } else {
            p.push(s.last())
        }
    }
}

/// How often `k` occurs in `s`.
pub open spec fn occurrences(s: Seq<Seq<char>>, k: Seq<char>) -> nat {
    s.filter(|x: Seq<char>| x == k).len()
}

/// Each distinct text of `s`, in order of first appearance, with the number
/// of its occurrences.
pub open spec fn category_counts(s: Seq<Seq<char>>) -> Seq<(Seq<char>, nat)> {
    distinct_in_order(s).map_values(|k: Seq<char>| (k, occurrences(s, k)))
}

proof fn lemma_occurrences_push(s: Seq<Seq<char>>, c: Seq<char>, k: Seq<char>)
    ensures
        occurrences(s.push(c), k) == occurrences(s, k) + if c == k {
            1nat
        } else {
            0nat
        },
{
    reveal_with_fuel(Seq::<_>::filter, 1);
    assert(s.push(c).drop_last() =~= s);
}

proof fn lemma_push_contains(t: Seq<Seq<char>>, x: Seq<char>, k: Seq<char>)
    ensures
        t.push(x).contains(k) == (t.contains(k) || k == x),
{
    let s = t.push(x);
    if s.contains(k) {
        let i = choose|i: int| 0 <= i < s.len() && s[i] == k;
        if i < t.len() {
            assert(t[i] == k);
        }
    }
    if t.contains(k) {
        let i = choose|i: int| 0 <= i < t.len() && t[i] == k;
        assert(s[i] == k);
    }
    if k == x {
        assert(s[t.len() as int] == k);
    }
}

/// The distinct list holds what the list holds, each once.
pub proof fn lemma_distinct_contains(s: Seq<Seq<char>>, k: Seq<char>)
    ensures
        distinct_in_order(s).contains(k) == s.contains(k),
        distinct_in_order(s).no_duplicates(),
    decreases s.len(),
{
    if s.len() > 0 {
        let t = s.drop_last();
        let x = s.last();
        let p = distinct_in_order(t);
        lemma_distinct_contains(t, k);
        lemma_distinct_contains(t, x);
        assert(s =~= t.push(x));
        lemma_push_contains(t, x, k);
        if !p.contains(x) {
            lemma_push_contains(p, x, k);
            assert forall|a: int, b: int|
                0 <= a < p.push(x).len() && 0 <= b < p.push(x).len() && a != b implies p.push(
                x,
            )[a] != p.push(x)[b] by {
                if a < p.len() && b < p.len() {
                } else if a == p.len() {
                    assert(p.contains(p[b]));
                } else {
                    assert(p.contains(p[a]));
                }
            }
        }
    }
}

/// The views of category counts.
pub open spec fn count_pairs(v: Seq<(String, usize)>) -> Seq<(Seq<char>, nat)> {
    v.map_values(|p: (String, usize)| (p.0@, p.1 as nat))
}

/// Count how many times each category occurs, categories in order of first
/// appearance.
pub fn count_by_category(cats: &Vec<String>) -> (r: Vec<(String, usize)>)
    ensures
        count_pairs(r@) == category_counts(string_views(cats@)),
{
    let ghost cv = string_views(cats@);
    let mut r: Vec<(String, usize)> = Vec::new();
    let mut i: usize = 0;
    assert(count_pairs(r@) =~= category_counts(cv.take(0)));
    while i < cats.len()
        invariant
            i <= cats.len(),
            cv == string_views(cats@),
            count_pairs(r@) == category_counts(cv.take(i as int)),
            forall|k: int| 0 <= k < r@.len() ==> r@[k].1 <= i,
        decreases cats.len() - i,
    {
        let c = &cats[i];
        let ghost t = cv.take(i as int);
        let ghost t2 = cv.take(i + 1);
        assert(t2 =~= t.push(c@));
        assert(t2.drop_last() =~= t);
        let mut j: usize = 0;
        while j < r.len() && !str_eq(r[j].0.as_str(), c.as_str())
            invariant
                j <= r@.len(),
                forall|k: int| 0 <= k < j ==> r@[k].0@ != c@,
            decreases r.len() - j,
        {
            j += 1;
        }
        proof {
            assert forall|k: Seq<char>| #[trigger] occurrences(t2, k) == occurrences(t, k) + if c@ == k {
                1nat
            } else {
                0nat
            } by {
                lemma_occurrences_push(t, c@, k);
            }
            lemma_distinct_contains(t, c@);
        }
        if j < r.len() {
            let ghost before = count_pairs(r@);
            assert(before.len() == r@.len());
            assert(category_counts(t).len() == distinct_in_order(t).len());
            assert(before == category_counts(t));
            assert(before[j as int] == (r@[j as int].0@, r@[j as int].1 as nat));
            assert(r@[j as int].0@ == c@);
            assert(category_counts(t)[j as int].0 == distinct_in_order(t)[j as int]);
            let count = r[j].1 + 1;
            let name = r[j].0.clone();
            r.set(j, (name, count));
            proof {
                assert(distinct_in_order(t)[j as int] == c@);
                assert(distinct_in_order(t).contains(c@));
                assert(distinct_in_order(t2) == distinct_in_order(t));
                lemma_distinct_contains(t, c@);
                assert forall|k: int| 0 <= k < count_pairs(r@).len() implies #[trigger] count_pairs(
                    r@,
                )[k] == category_counts(t2)[k] by {
                    let key = distinct_in_order(t)[k];
                    assert(category_counts(t2)[k] == (key, occurrences(t2, key)));
                    assert(before[k] == (key, occurrences(t, key)));
                    if k != j {
                        assert(key != c@);
                        assert(count_pairs(r@)[k] == before[k]);
                    } else {
                        assert(count_pairs(r@)[k] == (c@, before[k].1 + 1));
                    }
                }
                assert(count_pairs(r@) =~= category_counts(t2));
            }
        } else {
            let ghost before = count_pairs(r@);
            proof {
                assert(!distinct_in_order(t).contains(c@)) by {
                    if distinct_in_order(t).contains(c@) {
                        let k = choose|k: int| 0 <= k < distinct_in_order(t).len() && distinct_in_order(t)[k] == c@;
                        assert(before == category_counts(t));
                        assert(before.len() == r@.len());
                        assert(category_counts(t).len() == distinct_in_order(t).len());
                        assert(category_counts(t)[k].0 == distinct_in_order(t)[k]);
                        assert(before[k] == (r@[k].0@, r@[k].1 as nat));
                        assert(before[k].0 == c@);
                        assert(r@[k].0@ == c@);
                    }
                }
            }
            r.push((c.clone(), 1));
            proof {
                assert(distinct_in_order(t2) == distinct_in_order(t).push(c@));
                assert(before == category_counts(t));
                assert(before.len() == distinct_in_order(t).len());
                assert(category_counts(t2).len() == before.len() + 1);
                assert(count_pairs(r@).len() == before.len() + 1);
                assert(!t.contains(c@));
                assert(occurrences(t, c@) == 0) by {
                    if occurrences(t, c@) > 0 {
                        let f = t.filter(|x: Seq<char>| x == c@);
                        assert(f.contains(f[0]));
                        t.lemma_filter_contains_rev(|x: Seq<char>| x == c@, f[0]);
                        t.lemma_filter_pred(|x: Seq<char>| x == c@, 0);
                    }
                }
                assert forall|k: int| 0 <= k < count_pairs(r@).len() implies #[trigger] count_pairs(
                    r@,
                )[k] == category_counts(t2)[k] by {
                    if k < before.len() {
                        let key = distinct_in_order(t)[k];
                        assert(distinct_in_order(t).contains(key));
                        assert(key != c@);
                        assert(count_pairs(r@)[k] == before[k]);
                        assert(before[k] == (key, occurrences(t, key)));
                        assert(category_counts(t2)[k] == (key, occurrences(t2, key)));
                    } else {
                        assert(count_pairs(r@)[k] == (c@, 1nat));
                        assert(category_counts(t2)[k] == (c@, occurrences(t2, c@)));
                    }
                }
                assert(count_pairs(r@) =~= category_counts(t2));
            }
        }
        i += 1;
    }
    assert(cv.take(cats.len() as int) =~= cv);
    r
}

/// The number of batches of ten that `n` notes make.
pub open spec fn num_chunks(n: nat) -> nat {
    (n + 9) / 10
}

/// The number of notes in batch `c` of `n` notes.
pub open spec fn chunk_len(n: nat, c: nat) -> nat {
    if 10 * c + 10 <= n {
        10
    } else if 10 * c <= n {
        (n - 10 * c) as nat
    } else {
        0
    }
}

/// The least of three numbers.
pub open spec fn min3(a: nat, b: nat, c: nat) -> nat {
    let ab = if a <= b {
        a
    } else {
        b
    };
    if ab <= c {
        ab
    } else {
        c
    }
}

/// What the categories answered per batch (`None`: the batch failed)
/// amount to, batch by batch: batch `c` holds the notes from `10 * c` on,
/// and its `i`-th category goes to its `i`-th note, as far as there are
/// both; a failed batch gives no category and counts all its notes as
/// errors.
pub open spec fn organize_tally(notes: Seq<(i64, Seq<char>)>, outcomes: Seq<Option<Seq<Seq<char>>>>) -> (
    nat,
    nat,
    Seq<(i64, Seq<char>)>,
)
    decreases outcomes.len(),
{
    if outcomes.len() == 0 {
        (0, 0, seq![])
    } else {
        let prev = organize_tally(notes, outcomes.drop_last());
        let c = (outcomes.len() - 1) as nat;
        let len = chunk_len(notes.len(), c);
        match outcomes.last() {
            Some(cats) => {
                let k: nat = if len <= cats.len() {
                    len
                } else {
                    cats.len()
                };
                (prev.0 + k, prev.1, prev.2 + Seq::new(k, |i: int| (notes[10 * c + i].0, cats[i])))
            },
            None => (prev.0, prev.1 + len, prev.2),
        }
    }
}

proof fn lemma_organize_bounds(notes: Seq<(i64, Seq<char>)>, outcomes: Seq<Option<Seq<Seq<char>>>>)
    requires
        outcomes.len() <= num_chunks(notes.len()),
    ensures
        organize_tally(notes, outcomes).0 + organize_tally(notes, outcomes).1 <= notes.len(),
        organize_tally(notes, outcomes).0 + organize_tally(notes, outcomes).1 <= 10 * outcomes.len(),
        organize_tally(notes, outcomes).2.len() == organize_tally(notes, outcomes).0,
    decreases outcomes.len(),
{
    if outcomes.len() > 0 {
        lemma_organize_bounds(notes, outcomes.drop_last());
        let c = (outcomes.len() - 1) as nat;
        assert(10 * c < notes.len());
        assert(chunk_len(notes.len(), c) + 10 * c <= notes.len());
        assert(chunk_len(notes.len(), c) <= 10);
    }
}

/// The views of (rowid, text) pairs of notes.
pub open spec fn note_pair_views(v: Seq<(i64, String)>) -> Seq<(i64, Seq<char>)> {
    v.map_values(|p: (i64, String)| (p.0, p.1@))
}

/// Tally the categories answered per batch of ten notes.
pub fn tally_organize(notes: &Vec<(i64, String)>, outcomes: &Vec<Option<Vec<String>>>) -> (r: (
    u32,
    u32,
    Vec<(i64, String)>,
))
    requires
        outcomes@.len() == num_chunks(notes@.len()),
        notes@.len() <= u32::MAX,
    ensures
        (r.0 as nat, r.1 as nat, pair_views(r.2@)) == organize_tally(
            note_pair_views(notes@),
            opt_list_views(outcomes@),
        ),
{
    let ghost nv = note_pair_views(notes@);
    let ghost ov = opt_list_views(outcomes@);
    let n = notes.len();
    let mut processed: u32 = 0;
    let mut errors: u32 = 0;
    let mut updates: Vec<(i64, String)> = Vec::new();
    let mut c: usize = 0;
    assert(ov.take(0) =~= Seq::<Option<Seq<Seq<char>>>>::empty());
    while c < outcomes.len()
        invariant
            c <= outcomes.len(),
            n == notes@.len(),
            outcomes@.len() == num_chunks(n as nat),
            n <= u32::MAX,
            nv == note_pair_views(notes@),
            ov == opt_list_views(outcomes@),
            (processed as nat, errors as nat, pair_views(updates@)) == organize_tally(
                nv,
                ov.take(c as int),
            ),
        decreases outcomes.len() - c,
    {
        proof {
            lemma_organize_bounds(nv, ov.take(c as int));
            assert(ov.take(c + 1).drop_last() =~= ov.take(c as int));
            assert(ov.take(c + 1).last() == ov[c as int]);
            lemma_organize_bounds(nv, ov.take(c + 1));
        }
        assert(10 * c < n) by (nonlinear_arith)
            requires
                c < (n + 9) / 10,
        ;
        let rem: usize = n - 10 * c;
        let len: usize = if rem >= 10 {
            10
        } else {
            rem
        };
        match &outcomes[c] {
            Some(cats) => {
                let k: usize = if len <= cats.len() {
                    len
                } else {
                    cats.len()
                };
                let ghost before = pair_views(updates@);
                let start: usize = 10 * c;
                let mut t: usize = 0;
                while t < k
                    invariant
                        t <= k,
                        k <= cats@.len(),
                        start + k <= n,
                        n == notes@.len(),
                        nv == note_pair_views(notes@),
                        pair_views(updates@) == before + Seq::new(
                            t as nat,
                            |i: int| (nv[start + i].0, string_views(cats@)[i]),
                        ),
                    decreases k - t,
                {
                    let ghost b2 = pair_views(updates@);
                    let name = cats[t].clone();
                    updates.push((notes[start + t].0, name));
                    assert(nv[start + t].0 == notes@[start + t].0);
                    assert(string_views(cats@)[t as int] == cats@[t as int]@);
                    assert(pair_views(updates@) =~= b2.push((nv[start + t].0, string_views(cats@)[t as int])));
                    assert(pair_views(updates@) =~= before + Seq::new(
                        (t + 1) as nat,
                        |i: int| (nv[start + i].0, string_views(cats@)[i]),
                    ));
                    t += 1;
                }
                processed = processed + k as u32;
            },
            None => {
                errors = errors + len as u32;
            },
        }
        c += 1;
    }
    assert(ov.take(outcomes.len() as int) =~= ov);
    (processed, errors, updates)
}

/// The answer when no backend answers.
pub fn unavailable_organize_response() -> (r: AiOrganizeResponse)
    ensures
        r.processed == 0,
        r.errors == 0,
        r.categories@.len() == 0,
        !r.available,
        opt_str(r.error) == Some(unavailable_text()),
{
    AiOrganizeResponse {
        processed: 0,
        errors: 0,
        categories: Vec::new(),
        available: false,
        error: Some(unavailable_message()),
    }
}

/// The answer to an organize request from its tally: the counts, the
/// categories given with their counts, and the failure count as error.
pub open spec fn organize_response_is(
    r: AiOrganizeResponse,
    processed: nat,
    errors: nat,
    updates: Seq<(i64, Seq<char>)>,
) -> bool {
    &&& r.processed == processed
    &&& r.errors == errors
    &&& count_pairs(r.categories@) == category_counts(updates.map_values(|p: (i64, Seq<char>)| p.1))
    &&& r.available
    &&& errors > 0 ==> opt_str(r.error) == Some(decimal(errors) + " notes failed to categorize"@)
    &&& errors == 0 ==> r.error is None
}

/// The answer to an organize request from its tally.
pub fn organize_response(processed: u32, errors: u32, updates: &Vec<(i64, String)>) -> (r:
    AiOrganizeResponse)
    requires
        updates@.len() <= u32::MAX,
    ensures
        organize_response_is(r, processed as nat, errors as nat, pair_views(updates@)),
{
    let mut cats: Vec<String> = Vec::new();
    let mut i: usize = 0;
    let ghost second = |p: (i64, Seq<char>)| p.1;
    while i < updates.len()
        invariant
            i <= updates.len(),
            second == (|p: (i64, Seq<char>)| p.1),
            string_views(cats@) == pair_views(updates@).take(i as int).map_values(second),
        decreases updates.len() - i,
    {
        let ghost before = string_views(cats@);
        cats.push(updates[i].1.clone());
        assert(string_views(cats@) =~= before.push(updates@[i as int].1@));
        assert(pair_views(updates@).take(i + 1) =~= pair_views(updates@).take(i as int).push(
            pair_views(updates@)[i as int],
        ));
        i += 1;
    }
    assert(pair_views(updates@).take(updates.len() as int) =~= pair_views(updates@));
    let counts = count_by_category(&cats);
    let error = if errors > 0 {
        let mut e = decimal_string(errors as u64);
        e.append(" notes failed to categorize");
        Some(e)
    } else {
        None
    };
    AiOrganizeResponse { processed, errors, categories: counts, available: true, error }
}

/// The texts of batch `c` of the notes.
pub open spec fn chunk_texts(notes: Seq<(i64, Seq<char>)>, c: nat) -> Seq<Seq<char>> {
    notes.subrange((10 * c) as int, (10 * c + chunk_len(notes.len(), c)) as int).map_values(
        |p: (i64, Seq<char>)| p.1,
    )
}

/// Whether `ress` holds, batch by batch, answers the backend may give to
/// categorization requests for the batches' texts under `c`.
pub open spec fn organize_answers<B: AiBackend>(
    backend: &B,
    notes: Seq<(i64, Seq<char>)>,
    c: AiConfig,
    ress: Seq<AiResult<Vec<String>>>,
) -> bool {
    &&& ress.len() == num_chunks(notes.len())
    &&& forall|k: int|
        0 <= k < ress.len() ==> backend.categories_answer(chunk_texts(notes, k as nat), c, #[trigger] ress[k])
}

/// Categorize notes (those without a category, at most the command's
/// limit) in batches of ten, each batch with the backend's answer for its
/// texts under the command's configuration. Gives the answer and the
/// categories to store per note.
pub fn do_ai_organize<B: AiBackend>(
    backend: &B,
    cmd: &CmdAiOrganize,
    notes: &Vec<(i64, String)>,
) -> (r: (AiOrganizeResponse, Vec<(i64, String)>))
    requires
        notes@.len() <= u32::MAX,
    ensures
        backend.available_answer(r.0.available),
        !r.0.available ==> r.1@.len() == 0 && r.0.processed == 0 && r.0.errors == 0
            && r.0.categories@.len() == 0 && opt_str(r.0.error) == Some(unavailable_text()),
        r.0.available && notes@.len() == 0 ==> r.1@.len() == 0 && r.0.processed == 0
            && r.0.errors == 0 && r.0.categories@.len() == 0 && opt_str(r.0.error) == Some(
            "No notes to categorize"@,
        ),
        r.0.available && notes@.len() > 0 ==> exists|ress: Seq<AiResult<Vec<String>>>, c: AiConfig|
            #[trigger] organize_answers(backend, note_pair_views(notes@), c, ress) && command_config(
                c,
                cmd.endpoint,
                cmd.model,
            ) && organize_tally(
                note_pair_views(notes@),
                ress.map_values(|x: AiResult<Vec<String>>| tags_of(x)),
            ).2 == pair_views(r.1@) && organize_response_is(
                r.0,
                organize_tally(
                    note_pair_views(notes@),
                    ress.map_values(|x: AiResult<Vec<String>>| tags_of(x)),
                ).0,
                organize_tally(
                    note_pair_views(notes@),
                    ress.map_values(|x: AiResult<Vec<String>>| tags_of(x)),
                ).1,
                pair_views(r.1@),
            ),
{
    let config = config_for(&cmd.endpoint, &cmd.model);
    if !backend.is_available() {
        return (unavailable_organize_response(), Vec::new());
    }
    let n = notes.len();
    if n == 0 {
        return (
            AiOrganizeResponse {
                processed: 0,
                errors: 0,
                categories: Vec::new(),
                available: true,
                error: Some(String::from_str("No notes to categorize")),
            },
            Vec::new(),
        );
    }
    let mut outcomes: Vec<Option<Vec<String>>> = Vec::new();
    let chunks: usize = if n % 10 == 0 {
        n / 10
    } else {
        n / 10 + 1
    };
    assert(chunks == num_chunks(n as nat)) by (nonlinear_arith)
        requires
            n % 10 == 0 ==> chunks == n / 10,
            n % 10 != 0 ==> chunks == n / 10 + 1,
    ;
    let ghost nv = note_pair_views(notes@);
    let ghost mut ress: Seq<AiResult<Vec<String>>> = Seq::empty();
    let mut c: usize = 0;
    while c < chunks
        invariant
            n == notes@.len(),
            nv == note_pair_views(notes@),
            chunks == num_chunks(n as nat),
            c <= chunks,
            outcomes@.len() == c,
            ress.len() == c,
            forall|k: int|
                0 <= k < c ==> backend.categories_answer(chunk_texts(nv, k as nat), config, #[trigger] ress[k]),
            opt_list_views(outcomes@) == ress.map_values(|x: AiResult<Vec<String>>| tags_of(x)),
        decreases chunks - c,
    {
        assert(10 * c < n) by (nonlinear_arith)
            requires
                c < (n + 9) / 10,
        ;
        let start = 10 * c;
        let end: usize = if n - start >= 10 {
            start + 10
        } else {
            n
        };
        let mut chunk: Vec<&str> = Vec::new();
        let mut j = start;
        while j < end
            invariant
                start <= j <= end,
                end <= n,
                n == notes@.len(),
                nv == note_pair_views(notes@),
                chunk@.map_values(|t: &str| t@) == nv.subrange(start as int, j as int).map_values(
                    |p: (i64, Seq<char>)| p.1,
                ),
            decreases end - j,
        {
            let ghost before = chunk@.map_values(|t: &str| t@);
            chunk.push(notes[j].1.as_str());
            assert(chunk@.map_values(|t: &str| t@) =~= before.push(nv[j as int].1));
            assert(nv.subrange(start as int, j + 1).map_values(|p: (i64, Seq<char>)| p.1)
                =~= nv.subrange(start as int, j as int).map_values(|p: (i64, Seq<char>)| p.1).push(
                nv[j as int].1,
            ));
            j += 1;
        }
        assert(end == 10 * c + chunk_len(n as nat, c as nat));
        assert(chunk@.map_values(|t: &str| t@) == chunk_texts(nv, c as nat));
        let res = backend.categorize(chunk.as_slice(), &config);
        let ghost g = res;
        let outcome = match res {
            Ok(cats) => Some(cats),
            Err(_) => None,
        };
        let ghost before = opt_list_views(outcomes@);
        outcomes.push(outcome);
        proof {
            ress = ress.push(g);
            assert(opt_list_views(outcomes@) =~= ress.map_values(|x: AiResult<Vec<String>>| tags_of(x)))
                by {
                assert(opt_list_views(outcomes@) =~= before.push(tags_of(g)));
            }
        }
        c += 1;
    }
    assert(outcomes@.len() == num_chunks(n as nat));
    let (processed, errors, updates) = tally_organize(notes, &outcomes);
    proof {
        lemma_organize_bounds(note_pair_views(notes@), opt_list_views(outcomes@));
        let os = opt_list_views(outcomes@);
        assert(organize_tally(note_pair_views(notes@), os).2 == pair_views(updates@));
        assert(organize_answers(backend, nv, config, ress));
    }
    (organize_response(processed, errors, &updates), updates)
}

/// The embedding a semantic search looks for, or why there is none.
pub enum QueryEmbedding<E> {
    /// No backend answers.
    Unavailable,
    /// The backend failed: `Failed to generate query embedding: {error}`.
    Failed(String),
    /// The embedding, the model whose embeddings to compare it with, and
    /// the number of results wanted.
    Ready(E, String, u32),
}

/// What the embedding answered for a query amounts to: the embedding with
/// the model to compare with (the configured one, or `unknown`) and the
/// number of results (the one asked for, 10 by default), or the failure.
pub open spec fn query_embedding_is<E>(
    r: QueryEmbedding<E>,
    res: AiResult<E>,
    limit: Option<u32>,
    model: Option<String>,
) -> bool {
    match res {
        Ok(e) => r matches QueryEmbedding::Ready(e2, m, l) && e2 == e && m@ == (match model {
            Some(x) => x@,
            None => "unknown"@,
        }) && l == (match limit {
            Some(x) => x,
            None => 10u32,
        }),
        Err(err) => r matches QueryEmbedding::Failed(msg) && msg@
            == "Failed to generate query embedding: "@ + ai_error_text(err),
    }
}

/// The embedding of a semantic search's query, asked of the backend under
/// the command's configuration.
pub fn semantic_query<B: AiBackend>(
    backend: &B,
    query: &str,
    limit: Option<u32>,
    endpoint: &Option<String>,
    model: &Option<String>,
) -> (r: QueryEmbedding<B::Embedding>)
    ensures
        backend.available_answer(!(r is Unavailable)),
        !(r is Unavailable) ==> exists|res: AiResult<B::Embedding>, c: AiConfig|
            #[trigger] backend.embed_answer(query@, c, res) && command_config(c, *endpoint, *model)
                && query_embedding_is(r, res, limit, *model),
{
    let config = config_for(endpoint, model);
    if !backend.is_available() {
        return QueryEmbedding::Unavailable;
    }
    let res = backend.embed(query, &config);
    let ghost g = res;
    let r = match res {
        Ok(e) => {
            let l = match limit {
                Some(x) => x,
                None => 10,
            };
            QueryEmbedding::Ready(e, model_id_of(&config), l)
        },
        Err(err) => {
            let mut msg = String::from_str("Failed to generate query embedding: ");
            msg.append(err.message().as_str());
            QueryEmbedding::Failed(msg)
        },
    };
    assert(backend.embed_answer(query@, config, g));
    assert(query_embedding_is(r, g, limit, *model));
    r
}

/// Organizing never counts more notes done or failed than there are
/// notes, and gives one category per note done.
pub proof fn law_organize_within_notes(
    notes: Seq<(i64, Seq<char>)>,
    outcomes: Seq<Option<Seq<Seq<char>>>>,
)
    requires
        outcomes.len() == num_chunks(notes.len()),
    ensures
        organize_tally(notes, outcomes).0 + organize_tally(notes, outcomes).1 <= notes.len(),
        organize_tally(notes, outcomes).2.len() == organize_tally(notes, outcomes).0,
{
    lemma_organize_bounds(notes, outcomes);
}

proof fn lemma_organize_places(notes: Seq<(i64, Seq<char>)>, outcomes: Seq<Option<Seq<Seq<char>>>>)
    requires
        outcomes.len() <= num_chunks(notes.len()),
    ensures
        forall|c: int, j: int|
            0 <= c < outcomes.len() && #[trigger] outcomes[c] is Some && 0 <= j < chunk_len(
                notes.len(),
                c as nat,
            ) && j < outcomes[c]->0.len() ==> organize_tally(notes, outcomes).2.contains(
                (notes[10 * c + j].0, #[trigger] outcomes[c]->0[j]),
            ),
        (forall|c: int|
            0 <= c < outcomes.len() && #[trigger] outcomes[c] is Some ==> outcomes[c]->0.len()
                >= chunk_len(notes.len(), c as nat)) ==> organize_tally(notes, outcomes).0
            + organize_tally(notes, outcomes).1 == if 10 * outcomes.len() <= notes.len() {
            10 * outcomes.len()
        } else {
            notes.len()
        },
    decreases outcomes.len(),
{
    if outcomes.len() > 0 {
        let prev_o = outcomes.drop_last();
        lemma_organize_places(notes, prev_o);
        let m = (outcomes.len() - 1) as nat;
        assert(10 * m < notes.len());
        let prev = organize_tally(notes, prev_o);
        let cur = organize_tally(notes, outcomes);
        assert forall|c: int, j: int|
            0 <= c < outcomes.len() && #[trigger] outcomes[c] is Some && 0 <= j < chunk_len(
                notes.len(),
                c as nat,
            ) && j < outcomes[c]->0.len() implies cur.2.contains(
            (notes[10 * c + j].0, #[trigger] outcomes[c]->0[j]),
        ) by {
            if c < m {
                assert(prev_o[c] == outcomes[c]);
                assert(prev.2.contains((notes[10 * c + j].0, prev_o[c]->0[j])));
                let i = choose|i: int| 0 <= i < prev.2.len() && prev.2[i] == (
                    notes[10 * c + j].0,
                    prev_o[c]->0[j],
                );
                assert(cur.2[i] == prev.2[i]);
            } else {
                assert(c == m);
                let cats = outcomes[c]->0;
                assert(outcomes.last() == outcomes[c]);
                assert(cur.2[prev.2.len() + j] == (notes[10 * c + j].0, cats[j]));
            }
        }
        if forall|c: int|
            0 <= c < outcomes.len() && #[trigger] outcomes[c] is Some ==> outcomes[c]->0.len()
                >= chunk_len(notes.len(), c as nat) {
            assert forall|c: int|
                0 <= c < prev_o.len() && #[trigger] prev_o[c] is Some implies prev_o[c]->0.len()
                    >= chunk_len(notes.len(), c as nat) by {
                assert(prev_o[c] == outcomes[c]);
            }
            assert(outcomes.last() == outcomes[m as int]);
        }
    }
}

/// Each note of a batch that answered gets the category answered for its
/// own place in the batch; and when every batch that answered gave a
/// category per note, every note is counted, done or failed.
pub proof fn law_organize_each_note_its_category(
    notes: Seq<(i64, Seq<char>)>,
    outcomes: Seq<Option<Seq<Seq<char>>>>,
)
    requires
        outcomes.len() == num_chunks(notes.len()),
    ensures
        forall|c: int, j: int|
            0 <= c < outcomes.len() && #[trigger] outcomes[c] is Some && 0 <= j < chunk_len(
                notes.len(),
                c as nat,
            ) && j < outcomes[c]->0.len() ==> organize_tally(notes, outcomes).2.contains(
                (notes[10 * c + j].0, #[trigger] outcomes[c]->0[j]),
            ),
        (forall|c: int|
            0 <= c < outcomes.len() && #[trigger] outcomes[c] is Some ==> outcomes[c]->0.len()
                >= chunk_len(notes.len(), c as nat)) ==> organize_tally(notes, outcomes).0
            + organize_tally(notes, outcomes).1 == notes.len(),
{
    lemma_organize_places(notes, outcomes);
    assert(10 * outcomes.len() >= notes.len());
}

/// A batch accounts for every note: those done and those failed add up to
/// the notes of the batch.
pub proof fn law_batches_account_for_every_note(
    notes: Seq<Note>,
    tag_results: Seq<Option<Seq<Seq<char>>>>,
    rowids: Seq<i64>,
    outcomes: Seq<(Option<Seq<Seq<char>>>, Option<Seq<char>>)>,
)
    ensures
        tag_tally(notes, tag_results).0 + tag_tally(notes, tag_results).1 == tag_results.len(),
        tag_tally(notes, tag_results).2.len() == tag_tally(notes, tag_results).0,
        reprocess_tally(rowids, outcomes).0 + reprocess_tally(rowids, outcomes).1 == outcomes.len(),
{
    lemma_tag_tally_counts(notes, tag_results);
    lemma_reprocess_counts(rowids, outcomes);
}

} // verus!
