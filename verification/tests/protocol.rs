use fastxt::command::{
    batch_response, client_stop_server_response, client_sync_response, fixed, nothing_to_do_response,
    parse_action, parse_error, reply, search_response, select_response, server_response,
    sync_embeddings_response, Action, Fixed,
};
use fastxt::query::{make_fts5_query, make_keys, make_words, placeholders, where_vec};

#[test]
fn actions_are_recognised() {
    assert_eq!(parse_action("search"), Action::Search);
    assert_eq!(parse_action("ai-tag-all"), Action::AiTagAll);
    assert_eq!(parse_action("sync-embeddings"), Action::SyncEmbeddings);
    assert_eq!(parse_action("get-categories"), Action::GetCategories);
    assert_eq!(parse_action("Search"), Action::Unknown);
    assert_eq!(parse_action(""), Action::Unknown);
}

#[test]
fn parse_errors_name_the_action() {
    assert_eq!(
        parse_error(Action::Search).unwrap(),
        r#"{"error":"cmd search json error"}"#
    );
    assert_eq!(parse_error(Action::Server).unwrap(), r#"{"error":"cmd server error"}"#);
    assert_eq!(
        parse_error(Action::ClientSync).unwrap(),
        r#"{"error":"cmd client-sync error"}"#
    );
    assert_eq!(parse_error(Action::GetCategories), None);
    assert_eq!(fixed(Fixed::NoMatch), r#"{"error": "cmd no match"}"#);
    assert_eq!(fixed(Fixed::CmdJsonError), r#"{"error": "cmd json error"}"#);
}

#[test]
fn response_framing() {
    assert_eq!(search_response(2, "[]"), r#"{"count": 2, "notes":[]}"#);
    assert_eq!(select_response("[1]"), r#"{"notes":[1]}"#);
    assert_eq!(reply("client-sync", "sync ok"), r#"{"client-sync": "sync ok"}"#);
    assert_eq!(server_response(true), r#"{"server": "started"}"#);
    assert_eq!(server_response(false), r#"{"error":"server error"}"#);
    assert_eq!(
        client_sync_response(Err("x".to_string())),
        r#"{"error":"client-sync error"}"#
    );
    assert_eq!(
        client_stop_server_response(Ok("stop ok".to_string())),
        r#"{"client-stop-server": "stop ok"}"#
    );
    assert_eq!(
        sync_embeddings_response(Err("bad".to_string())),
        r#"{"error": "bad"}"#
    );
    assert_eq!(
        batch_response(3, 1, "Batch tagging complete"),
        r#"{"processed":3,"errors":1,"message":"Batch tagging complete"}"#
    );
    assert_eq!(
        nothing_to_do_response("No notes without AI tags"),
        r#"{"processed":0,"message":"No notes without AI tags"}"#
    );
}

#[test]
fn search_words_and_keys() {
    assert_eq!(make_words("  rust \t book "), vec!["%rust%", "%book%"]);
    assert_eq!(make_words(""), vec!["%%"]);
    assert_eq!(make_keys(3), vec![":w0", ":w1", ":w2"]);
    assert_eq!(
        where_vec(1),
        vec!["(\n        txt like :w0\n        or tags like :w0\n        )"]
    );
    assert_eq!(placeholders(3), "?,?,?");
    assert_eq!(make_fts5_query(" a  \"b\" "), "\"a\" AND \"\"\"b\"\"\"");
    assert_eq!(make_fts5_query("   "), "");
}
