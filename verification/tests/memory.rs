use cua_voice::json_text::{parse_json, print_json};
use cua_voice::memory::{
    compact_text, ctx_binary, ctx_frame_parts, ctx_frame_result, ctx_frame_text, format_ctx_frame,
    recent_context_from, sql_quote, sqlite_result, ChatStore, CtxMemory, CHAT_CONTEXT_LIMIT, CHAT_RECENT_SQL,
};

fn home() -> Option<String> {
    Some("/home/me".to_string())
}

#[test]
fn formats_ctx_frame_as_bounded_context() {
    let raw = r#"{"registers":{"goal":"open safari"},"selected_memory":[{"content":"Use Aegis for browser work"}],"protocol":{"task_mode":"engineering"}}"#;
    let frame = format_ctx_frame(raw).unwrap();

    assert!(frame.contains("Context:"));
    assert!(frame.contains("open safari"));
    assert!(frame.contains("selected_memory"));
    assert_eq!(
        frame,
        "Context:\nregisters={\"goal\":\"open safari\"}\nselected_memory=[{\"content\":\"Use Aegis for browser work\"}]\nprotocol={\"task_mode\":\"engineering\"}"
    );
    assert_eq!(
        format_ctx_frame("{}").unwrap(),
        "Context:\nregisters=null\nselected_memory=[]\nprotocol=null"
    );
    assert_eq!(
        format_ctx_frame("nope").unwrap_err(),
        "decode ctx frame: expected ident at line 1 column 2"
    );
    assert_eq!(
        format_ctx_frame("").unwrap_err(),
        "decode ctx frame: EOF while parsing a value at line 1 column 0"
    );
    assert_eq!(
        ctx_frame_result(Err("no frame".to_string())).unwrap_err(),
        "decode ctx frame: no frame"
    );
    assert_eq!(
        ctx_frame_result(Ok(parse_json("{}").unwrap())).unwrap(),
        "Context:\nregisters=null\nselected_memory=[]\nprotocol=null"
    );
    assert_eq!(
        ctx_frame_text("a  b", "", "c"),
        "Context:\nregisters=a b\nselected_memory=\nprotocol=c"
    );
}

#[test]
fn sql_quote_escapes_single_quotes() {
    assert_eq!(sql_quote("can't"), "'can''t'");
    assert_eq!(sql_quote("''"), "''''''");
    assert_eq!(sql_quote(""), "''");
}

#[test]
fn chat_rows_are_read_oldest_first() {
    assert_eq!(recent_context_from(""), "Recent chat: none.");
    assert_eq!(recent_context_from("no tab\n\n"), "Recent chat: none.");
    let context = recent_context_from("assistant\tOpening Safari.\r\nuser\topen  safari");
    assert_eq!(
        context,
        "Recent chat:\nuser: open safari\nassistant: Opening Safari."
    );
    let long = "x".repeat(230);
    let expected = format!("Recent chat:\nuser: {}...", "x".repeat(217));
    assert_eq!(recent_context_from(&format!("user\t{long}")), expected);
}

#[test]
fn a_turn_is_stored_in_one_transaction() {
    let store = ChatStore::new("work", &home()).unwrap();
    assert_eq!(store.db_path, "/home/me/.cua/profiles/work/chat.db");
    assert_eq!(
        ChatStore::new("work", &None).unwrap_err(),
        "environment variable not found"
    );
    let insert = "INSERT INTO chat_messages(turn_id, profile, role, text, action_json, evidence_json, model, created_at_ms) VALUES(";
    let time = "CAST(strftime('%s','now') AS INTEGER) * 1000); ";
    let action = parse_json(r#"{"kind":"pause"}"#);
    assert_eq!(
        store.append_turn("turn-1", "it's", "ok", &action, &None, "m"),
        format!(
            "BEGIN IMMEDIATE; {insert}'turn-1', 'work', 'user', 'it''s', NULL, NULL, 'm', {time}{insert}'turn-1', 'work', 'assistant', 'ok', '{{\"kind\":\"pause\"}}', 'null', 'm', {time}COMMIT;"
        )
    );
    assert!(CHAT_RECENT_SQL.ends_with(&format!("LIMIT {CHAT_CONTEXT_LIMIT};")));
}

#[test]
fn the_context_program_is_asked_by_profile() {
    let ctx = CtxMemory::new("work", &home(), "/bin/ctx".to_string()).unwrap();
    assert_eq!(ctx.workspace_root, "/home/me/.cua/profiles/work/ctx");
    assert_eq!(ctx.session_id(), "cua-work");
    assert_eq!(
        ctx.frame_args("open it", "Recent  chat: none."),
        vec![
            "frame",
            "cua-work",
            "work",
            "open it\n\nCurrent cua chat context:\nRecent chat: none."
        ]
    );
    assert_eq!(
        ctx.remember_args("a", "b"),
        vec![
            "remember",
            "session",
            "chat",
            "30",
            "80",
            "User said: a Assistant replied: b"
        ]
    );
    assert_eq!(
        CtxMemory::new("work", &None, String::new()).unwrap_err(),
        "environment variable not found"
    );
}

#[test]
fn ctx_is_required_without_fallback() {
    let ctx = CtxMemory::new("test", &home(), "/tmp/cua-missing-ctx".to_string()).unwrap();
    let error = ctx.require_binary(false).unwrap_err();

    assert!(error.contains("ctx binary is required"));
    assert_eq!(error, "ctx binary is required at /tmp/cua-missing-ctx");
    assert!(ctx.require_binary(true).is_ok());
}

#[test]
fn programs_report_how_they_failed() {
    let ctx = CtxMemory::new("test", &home(), "/bin/ctx".to_string()).unwrap();
    assert_eq!(ctx.command_result(true, Some(0), " out \n", "").unwrap(), "out");
    assert_eq!(
        ctx.command_result(false, Some(2), "", "bad \n thing").unwrap_err(),
        "ctx exited Some(2): bad thing"
    );
    assert_eq!(
        ctx.command_result(false, None, "", "x").unwrap_err(),
        "ctx exited None: x"
    );
    assert_eq!(sqlite_result(true, "a\n", "").unwrap(), "a");
    assert_eq!(
        sqlite_result(false, "a", "locked").unwrap_err(),
        "sqlite3 failed: locked"
    );
}

#[test]
fn the_context_program_is_found_in_order() {
    let some = |text: &str| Some(text.to_string());
    assert_eq!(ctx_binary(&some("/a"), &some("/b"), "/c"), "/a");
    assert_eq!(ctx_binary(&some("  "), &some("/b"), "/c"), "/b");
    assert_eq!(ctx_binary(&None, &some("/b"), "/c"), "/b");
    assert_eq!(ctx_binary(&some(""), &None, "/c"), "/c");
}

#[test]
fn compact_text_keeps_within_its_limit() {
    assert_eq!(compact_text(" a \n b ", 3), "a b");
    assert_eq!(compact_text("abcdef", 5), "ab...");
    assert_eq!(compact_text("abcdef", 2), "...");
}

#[test]
fn the_parts_of_a_frame_are_picked_by_their_names() {
    let frame = parse_json(
        r#"{"registers":{"goal":"a"},"selected_memory":[1],"protocol":"p","other":2}"#,
    )
    .unwrap();
    let parts = ctx_frame_parts(&frame);
    assert_eq!(print_json(&parts.registers).unwrap(), r#"{"goal":"a"}"#);
    assert_eq!(print_json(&parts.memory).unwrap(), "[1]");
    assert_eq!(print_json(&parts.protocol).unwrap(), r#""p""#);
    let parts = ctx_frame_parts(&parse_json("{}").unwrap());
    assert_eq!(print_json(&parts.registers).unwrap(), "null");
    assert_eq!(print_json(&parts.memory).unwrap(), "[]");
    assert_eq!(print_json(&parts.protocol).unwrap(), "null");
}
