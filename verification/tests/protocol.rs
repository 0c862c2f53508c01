use cua_voice::action::InputAction;
use cua_voice::client::{
    capture_params, check_response_line, ensure_dispatchable, events_after_params,
    events_wait_params, request_envelope, request_failure, response_result, CuaClient, UnixResponse,
};
use cua_voice::headless::{headless_event_line, input_devices_json, InputDevice};
use cua_voice::inbox::{inbound_message_from_daemon_event, inbound_prompt, inbound_prompt_at};
use cua_voice::json::Json;
use cua_voice::json_text::{parse_json, print_json};
use cua_voice::poll::{
    done_mark_failed, inbox_messages, inbox_outcome, note_connect_error, running_mark_failed,
    DaemonUiEventKind, EventWait, InboxOutcome,
};
use cua_voice::time::from_millis;
use cua_voice::ui_state::{UiMode, VoiceUiEvent};

fn json(text: &str) -> Json {
    parse_json(text).unwrap()
}

fn printed(value: &Json) -> String {
    print_json(value).unwrap()
}

#[test]
fn requests_carry_the_token_and_an_identity() {
    let home = Some("/home/me".to_string());
    let client = CuaClient::new("work", "secret".to_string(), &home).unwrap();
    assert_eq!(client.profile(), "work");
    assert_eq!(
        client.socket_path,
        "/home/me/.cua/profiles/work/daemon.sock"
    );
    assert_eq!(
        CuaClient::new("work", "secret".to_string(), &None).unwrap_err(),
        "environment variable not found"
    );
    let first = client.request("events.after", Some(events_after_params(3)));
    let second = client.request("events.after", None);
    assert_ne!(first.get_text("id"), second.get_text("id"));
    assert_eq!(first.get_text("token").unwrap(), "secret");
    assert_eq!(
        printed(first.get("params").unwrap()),
        r#"{"after_sequence":3}"#
    );
    assert_eq!(
        printed(&request_envelope("1", "t", "observe.desktop", None)),
        r#"{"id":"1","method":"observe.desktop","params":{},"token":"t"}"#
    );
    assert_eq!(
        printed(&events_wait_params(3, 1_000)),
        r#"{"after_sequence":3,"timeout_ms":1000}"#
    );
    assert_eq!(
        capture_params("png", true).get_number("max_width"),
        Some(1_280)
    );
}

#[test]
fn clipboard_actions_are_refused() {
    assert!(ensure_dispatchable(&InputAction::Pause).is_ok());
    assert_eq!(
        ensure_dispatchable(&InputAction::ClipboardWrite {
            text: "x".to_string()
        })
        .unwrap_err(),
        "clipboard actions require explicit clipboard endpoints"
    );
}

#[test]
fn answers_are_results_or_failures() {
    assert!(check_response_line("m", "{}\n").is_ok());
    assert_eq!(
        check_response_line("m", " \n").unwrap_err(),
        "empty unix response for m"
    );
    let response = |ok, result: Option<&str>, error: Option<&str>| UnixResponse {
        ok,
        result: result.map(json),
        error: error.map(json),
    };
    assert_eq!(
        printed(&response_result("m", response(true, Some("[1]"), None)).unwrap()),
        "[1]"
    );
    assert_eq!(
        printed(&response_result("m", response(true, None, None)).unwrap()),
        "null"
    );
    assert_eq!(
        response_result("m", response(false, None, Some(r#"{"code":"busy"}"#))).unwrap_err(),
        r#"unix request m failed: {"code":"busy"}"#
    );
    assert_eq!(
        response_result("m", response(false, None, None)).unwrap_err(),
        "unix request m failed: {}"
    );
    assert_eq!(request_failure("m", "x"), "unix request m failed: x");
}

#[test]
fn inbox_messages_become_commands() {
    let event = json(
        r#"{"sequence": 4, "kind": "inbound_message", "data": {"message_id": "m1", "text": "open notes", "payload": {"a": 1}}}"#,
    );
    let message = inbound_message_from_daemon_event(&event).unwrap();
    assert_eq!(message.source, "inbox");
    assert_eq!(message.delivery_method, "inbox");
    let expected = "Inbound cua message received at NOW via inbox from source inbox.\n\
         Treat this exactly like a user command. Check current desktop context when useful, use tools when needed, and verify visible effects before finishing.\n\
         Message: open notes\n\
         Payload JSON: {\"a\":1}";
    assert_eq!(
        inbound_prompt_at(&message, "NOW", &Some("{\"a\":1}".to_string())),
        expected
    );
    let prompt = inbound_prompt(&message);
    let time = prompt
        .strip_prefix("Inbound cua message received at ")
        .unwrap()
        .split(" via ")
        .next()
        .unwrap();
    assert_eq!(prompt.replace(time, "NOW"), expected);
    let shape: String =
        time.chars().map(|c| if c.is_ascii_digit() { '0' } else { c }).collect();
    assert!(shape.starts_with("0000-00-00T00:00:00"));
    let fraction = shape[19..].strip_suffix("+00:00").unwrap();
    assert!(["", ".000", ".000000", ".000000000"].contains(&fraction));
    let part = |from: usize| time[from..from + 2].parse::<u32>().unwrap();
    assert!((1..=12).contains(&part(5)) && (1..=31).contains(&part(8)));
    assert!(part(11) < 24 && part(14) < 60 && part(17) < 60);

    let bare = json(r#"{"kind": "inbound_message", "data": {"message_id": "m1", "text": "x"}}"#);
    let message = inbound_message_from_daemon_event(&bare).unwrap();
    assert!(inbound_prompt(&message).ends_with("Payload JSON: {}"));
    for other in [
        r#"{"kind": "ui_step", "data": {"message_id": "m1", "text": "x"}}"#,
        r#"{"kind": "inbound_message", "data": {"text": "x"}}"#,
        r#"{"kind": "inbound_message", "data": {"message_id": "m1"}}"#,
        r#"{"kind": "inbound_message"}"#,
    ] {
        assert!(inbound_message_from_daemon_event(&json(other)).is_none());
    }
}

#[test]
fn the_inbox_is_read_in_order() {
    let message = |sequence: u64, id: &str| {
        json(&format!(
            r#"{{"sequence": {sequence}, "kind": "inbound_message", "data": {{"message_id": "{id}", "text": "x"}}}}"#
        ))
    };
    let events = vec![
        message(5, "a"),
        json(r#"{"sequence": 6, "kind": "ui_step"}"#),
        message(7, "b"),
    ];
    let mut last = 4;
    let messages = inbox_messages(&events, &mut last);
    assert_eq!(last, 7);
    let ids: Vec<&str> = messages.iter().map(|m| m.message_id.as_str()).collect();
    assert_eq!(ids, vec!["a", "b"]);
    assert_eq!(
        inbox_outcome(&Ok(())),
        InboxOutcome::Done("completed".to_string())
    );
    assert_eq!(
        inbox_outcome(&Err("no".to_string())),
        InboxOutcome::Failed("no".to_string())
    );
    assert_eq!(
        running_mark_failed("x"),
        "mark inbox message running failed: x"
    );
    assert_eq!(done_mark_failed("x"), "mark inbox message done failed: x");
}

#[test]
fn a_connect_error_is_told_once() {
    let mut last = None;
    assert!(note_connect_error(&mut last, "refused"));
    assert!(!note_connect_error(&mut last, "refused"));
    assert!(note_connect_error(&mut last, "missing"));
    assert_eq!(last.as_deref(), Some("missing"));
}

#[test]
fn a_wait_ends_with_the_first_step_or_the_time() {
    let mut wait = EventWait::new(DaemonUiEventKind::Step, 10, 60_000, from_millis(1_000));
    assert_eq!(wait.timeout_ms, 30_000);
    assert_eq!(wait.remaining_ms(from_millis(1_000)), Ok(30_000));
    assert_eq!(wait.remaining_ms(from_millis(30_990)), Ok(25));
    assert_eq!(wait.remaining_ms(from_millis(2_000) + 1), Ok(28_999));
    assert_eq!(wait.remaining_ms(from_millis(31_000) - 1), Ok(25));
    assert_eq!(
        wait.remaining_ms(from_millis(31_000)),
        Err("timed out waiting for programmed agent step".to_string())
    );
    let old = json(r#"{"sequence": 9, "kind": "ui_step", "data": {"label": "old"}}"#);
    let reply = json(r#"{"sequence": 11, "kind": "ui_reply", "data": {"text": "hi"}}"#);
    assert!(wait.take(&vec![old, reply]).is_none());
    assert_eq!(wait.last_sequence, 11);
    let step = json(r#"{"sequence": 12, "kind": "ui_step", "data": {"label": "new"}}"#);
    let later = json(r#"{"sequence": 13, "kind": "ui_step", "data": {"label": "later"}}"#);
    assert!(matches!(
        wait.take(&vec![step, later]),
        Some(VoiceUiEvent::AgentStep { label, .. }) if label == "new"
    ));
    assert_eq!(wait.last_sequence, 12);
    assert_eq!(
        EventWait::new(DaemonUiEventKind::Reply, 0, 1, 0).timeout_ms,
        25
    );
}

#[test]
fn events_are_printed_as_lines() {
    let line = |event: VoiceUiEvent| headless_event_line(&event, &json(r#"{"x":1}"#)).unwrap();
    assert_eq!(line(VoiceUiEvent::Armed), r#"{"event":"armed"}"#);
    assert_eq!(
        line(VoiceUiEvent::Listening { ms: 7 }),
        r#"{"event":"listening","ms":7}"#
    );
    assert_eq!(
        line(VoiceUiEvent::UiMode {
            mode: UiMode::Headless,
            source: None
        }),
        r#"{"event":"ui_mode","mode":"headless","source":null}"#
    );
    assert_eq!(
        line(VoiceUiEvent::AgentStep {
            label: "a".to_string(),
            source: Some("b".to_string()),
            task: None,
            tool: None,
            step_index: Some(1),
            step_total: None,
            ttl_ms: Some(5_000),
        }),
        r#"{"event":"agent_step","label":"a","source":"b","step_index":1,"step_total":null,"task":null,"tool":null,"ttl_ms":5000}"#
    );
    assert_eq!(
        line(VoiceUiEvent::SetExpanded(true)),
        r#"{"event":"set_expanded","expanded":true}"#
    );
    assert_eq!(
        line(VoiceUiEvent::SceneTheme(cua_voice::hud::default_island_theme())),
        r#"{"event":"scene_theme","theme":{"x":1}}"#
    );
    assert_eq!(
        line(VoiceUiEvent::Metric {
            name: "plan_ms".to_string(),
            ms: 3
        }),
        r#"{"event":"metric","ms":3,"name":"plan_ms"}"#
    );
    assert_eq!(line(VoiceUiEvent::Idle), r#"{"event":"idle"}"#);
}

#[test]
fn input_devices_are_listed() {
    let devices = vec![
        InputDevice {
            name: "Mic".to_string(),
            channels: Some(1),
            sample_rate: Some(48_000),
            sample_format: Some("F32".to_string()),
        },
        InputDevice {
            name: "Line".to_string(),
            channels: None,
            sample_rate: None,
            sample_format: None,
        },
    ];
    assert_eq!(
        printed(&input_devices_json(&devices, &Some("Mic".to_string()))),
        r#"{"default":"Mic","devices":[{"channels":1,"default":true,"name":"Mic","sample_format":"F32","sample_rate":48000},{"channels":null,"default":false,"name":"Line","sample_format":null,"sample_rate":null}],"event":"input_devices"}"#
    );
}

#[test]
fn json_text_is_read_and_written() {
    assert!(parse_json("{").is_none());
    let value = json(r#" { "b" : [1, -2, 0.5, "x", true, null], "a": {} } "#);
    assert_eq!(
        printed(&value),
        r#"{"a":{},"b":[1,-2,0.5,"x",true,null]}"#
    );
    assert!(json("[1,{\"a\":2}]").same_as(&json("[1, {\"a\": 2}]")));
}
