use cua_voice::agent_events::{
    agent_input_from_daemon_event, agent_island_from_daemon_event, agent_mode_from_daemon_event,
    agent_reply_from_daemon_event, agent_step_from_daemon_event, agent_ui_event_from_daemon_event,
    agent_ui_event_from_daemon_event_advancing_cursor, agent_visual_session_from_daemon_event,
    max_daemon_event_sequence,
};
use cua_voice::json::Json;
use cua_voice::json_text::parse_json;
use cua_voice::ui_state::{UiMode, VoiceUiEvent};

fn json(text: &str) -> Json {
    parse_json(text).unwrap()
}


#[test]
fn daemon_ui_step_event_maps_to_visible_agent_step() {
    let event = json(
        r#"{
        "sequence": 42,
        "kind": "ui_step",
        "data": {
            "label": "checking current focus",
            "source": "agent",
            "task": "debug auth",
            "tool": "browser",
            "step_index": 2,
            "step_total": 6,
            "ttl_ms": 1750
        }
    }"#,
    );

    let Some((
        sequence,
        VoiceUiEvent::AgentStep {
            label,
            source,
            task,
            tool,
            step_index,
            step_total,
            ttl_ms,
        },
    )) = agent_step_from_daemon_event(&event, 41)
    else {
        panic!("expected agent step event");
    };

    assert_eq!(sequence, 42);
    assert_eq!(label, "checking current focus");
    assert_eq!(source.as_deref(), Some("agent"));
    assert_eq!(task.as_deref(), Some("debug auth"));
    assert_eq!(tool.as_deref(), Some("browser"));
    assert_eq!(step_index, Some(2));
    assert_eq!(step_total, Some(6));
    assert_eq!(ttl_ms, Some(1750));
    assert!(agent_step_from_daemon_event(&event, 42).is_none());
}

#[test]
fn daemon_event_cursor_advances_across_ignored_events() {
    let ignored = json(
        r#"{
        "sequence": 1,
        "kind": "daemon_started",
        "data": {}
    }"#,
    );
    let step = json(
        r#"{
        "sequence": 2,
        "kind": "ui_step",
        "data": {
            "label": "typing proof text through cua",
            "task": "Live E2E",
            "tool": "CLI API",
            "step_index": 3,
            "step_total": 12
        }
    }"#,
    );
    let mut last_sequence = 0;

    assert!(
        agent_ui_event_from_daemon_event_advancing_cursor(&ignored, &mut last_sequence)
            .is_none()
    );
    assert_eq!(last_sequence, 1);

    let Some(VoiceUiEvent::AgentStep {
        label,
        task,
        tool,
        step_index,
        step_total,
        ..
    }) = agent_ui_event_from_daemon_event_advancing_cursor(&step, &mut last_sequence)
    else {
        panic!("expected visible agent step after ignored event");
    };

    assert_eq!(last_sequence, 2);
    assert_eq!(label, "typing proof text through cua");
    assert_eq!(task.as_deref(), Some("Live E2E"));
    assert_eq!(tool.as_deref(), Some("CLI API"));
    assert_eq!(step_index, Some(3));
    assert_eq!(step_total, Some(12));
}

#[test]
fn daemon_ui_step_event_ignores_voice_telemetry_echoes() {
    let event = json(
        r#"{
        "sequence": 43,
        "kind": "ui_step",
        "data": {
            "label": "reply: done",
            "source": "voice"
        }
    }"#,
    );

    assert!(agent_step_from_daemon_event(&event, 42).is_none());
}

#[test]
fn daemon_ui_reply_event_maps_to_visible_reply_flash() {
    let event = json(
        r#"{
        "sequence": 44,
        "kind": "ui_reply",
        "data": {
            "text": "Ready for the next step.",
            "source": "external agent",
            "ttl_ms": 1750
        }
    }"#,
    );

    let Some((sequence, VoiceUiEvent::AutomationReply(text))) =
        agent_reply_from_daemon_event(&event, 43)
    else {
        panic!("expected reply event");
    };

    assert_eq!(sequence, 44);
    assert_eq!(text, "Ready for the next step.");
    assert!(agent_reply_from_daemon_event(&event, 44).is_none());
}

#[test]
fn daemon_ui_reply_event_ignores_voice_echoes() {
    let event = json(
        r#"{
        "sequence": 45,
        "kind": "ui_reply",
        "data": {
            "text": "internal voice reply",
            "source": "voice"
        }
    }"#,
    );

    assert!(agent_reply_from_daemon_event(&event, 44).is_none());
}

#[test]
fn daemon_ui_mode_event_maps_to_live_visibility_mode() {
    let event = json(
        r#"{
        "sequence": 46,
        "kind": "ui_mode",
        "data": {
            "mode": "headless",
            "source": "cli"
        }
    }"#,
    );

    let Some((sequence, VoiceUiEvent::UiMode { mode, source })) =
        agent_mode_from_daemon_event(&event, 45)
    else {
        panic!("expected ui mode event");
    };

    assert_eq!(sequence, 46);
    assert_eq!(mode, UiMode::Headless);
    assert_eq!(source.as_deref(), Some("cli"));
    assert!(agent_mode_from_daemon_event(&event, 46).is_none());
}

#[test]
fn daemon_ui_island_event_maps_to_expansion_command() {
    let expanded = json(
        r#"{
        "sequence": 47,
        "kind": "ui_island",
        "data": {
            "state": "expanded",
            "source": "automation"
        }
    }"#,
    );
    let collapsed = json(
        r#"{
        "sequence": 48,
        "kind": "ui_island",
        "data": {
            "state": "collapsed"
        }
    }"#,
    );
    let toggle = json(
        r#"{
        "sequence": 49,
        "kind": "ui_island",
        "data": {
            "state": "toggle"
        }
    }"#,
    );

    let Some((sequence, VoiceUiEvent::SetExpanded(true))) =
        agent_island_from_daemon_event(&expanded, 46)
    else {
        panic!("expected expanded island event");
    };
    assert_eq!(sequence, 47);

    let Some((sequence, VoiceUiEvent::SetExpanded(false))) =
        agent_island_from_daemon_event(&collapsed, 47)
    else {
        panic!("expected collapsed island event");
    };
    assert_eq!(sequence, 48);

    let Some((sequence, VoiceUiEvent::ToggleExpanded)) =
        agent_island_from_daemon_event(&toggle, 48)
    else {
        panic!("expected toggle island event");
    };
    assert_eq!(sequence, 49);
    assert!(agent_island_from_daemon_event(&toggle, 49).is_none());
}

#[test]
fn daemon_input_completed_event_maps_to_automation_activity() {
    let event = json(
        r#"{
        "sequence": 46,
        "kind": "input_completed",
        "data": {
            "effect": "confirmed",
            "route": "accessibility",
            "evidence_kind": "cursor_readback"
        }
    }"#,
    );

    let Some((
        sequence,
        VoiceUiEvent::AutomationActivity {
            label,
            source,
            tool,
        },
    )) = agent_input_from_daemon_event(&event, 45)
    else {
        panic!("expected automation activity");
    };
    assert_eq!(sequence, 46);
    assert_eq!(label, "confirmed remote action");
    assert_eq!(source.as_deref(), Some("Computer control"));
    assert_eq!(tool.as_deref(), Some("Unix socket"));
    assert!(agent_input_from_daemon_event(&event, 46).is_none());
}

#[test]
fn daemon_input_started_event_maps_to_immediate_automation_activity() {
    let event = json(
        r#"{
        "sequence": 74,
        "kind": "input_started",
        "data": {
            "label": "mouse move to 30,40",
            "source": "automation",
            "tool": "Unix socket"
        }
    }"#,
    );

    let Some((
        sequence,
        VoiceUiEvent::AutomationActivity {
            label,
            source,
            tool,
        },
    )) = agent_input_from_daemon_event(&event, 73)
    else {
        panic!("expected automation activity");
    };

    assert_eq!(sequence, 74);
    assert_eq!(label, "mouse move to 30,40");
    assert_eq!(source.as_deref(), Some("Computer control"));
    assert_eq!(tool.as_deref(), Some("Unix socket"));
}

#[test]
fn visual_session_event_maps_to_visible_stream_activity() {
    let event = json(
        r#"{
        "sequence": 47,
        "kind": "visual_session_started",
        "data": {
            "fps": 12,
            "max_width": 1280,
            "include_bytes": false
        }
    }"#,
    );

    let Some((
        sequence,
        VoiceUiEvent::AgentStep {
            label,
            source,
            task,
            tool,
            step_index,
            step_total,
            ttl_ms,
        },
    )) = agent_visual_session_from_daemon_event(&event, 46)
    else {
        panic!("expected visual stream activity");
    };

    assert_eq!(sequence, 47);
    assert_eq!(label, "Streaming desktop frames at 12 fps");
    assert_eq!(source.as_deref(), Some("remote"));
    assert_eq!(task.as_deref(), Some("Computer control"));
    assert_eq!(tool.as_deref(), Some("Unix socket"));
    assert_eq!(step_index, Some(1));
    assert_eq!(step_total, Some(2));
    assert_eq!(ttl_ms, Some(5_000));
}

#[test]
fn input_events_without_a_label_and_refusals_are_shown() {
    let started = json(r#"{"sequence": 5, "kind": "input_started"}"#);
    assert!(matches!(
        agent_ui_event_from_daemon_event(&started, 4),
        Some((5, VoiceUiEvent::AutomationActivity { label, .. })) if label == "remote action started"
    ));
    let refused = json(r#"{"sequence": 6, "kind": "input_refused", "data": {}}"#);
    assert!(matches!(
        agent_ui_event_from_daemon_event(&refused, 5),
        Some((6, VoiceUiEvent::Error(text))) if text == "Remote action refused"
    ));
    assert!(agent_ui_event_from_daemon_event(&refused, 6).is_none());
}

#[test]
fn places_that_do_not_fit_are_left_out() {
    let event = json(
        r#"{"sequence": 1, "kind": "ui_step", "data": {"label": "a", "step_index": 70000, "step_total": 65535, "ttl_ms": -1}}"#,
    );
    assert!(matches!(
        agent_step_from_daemon_event(&event, 0),
        Some((
            1,
            VoiceUiEvent::AgentStep { step_index: None, step_total: Some(65535), ttl_ms: None, .. }
        ))
    ));
}

#[test]
fn a_snapshot_moves_the_cursor_past_all_of_it() {
    let events = vec![
        json(r#"{"sequence": 4}"#),
        json(r#"{"kind": "ui_step"}"#),
        json(r#"{"sequence": 9, "kind": "input_completed"}"#),
        json(r#"{"sequence": 7}"#),
    ];
    let cursor = max_daemon_event_sequence(&events);
    assert_eq!(cursor, 9);
    for event in &events {
        assert!(agent_ui_event_from_daemon_event(event, cursor).is_none());
    }
    assert_eq!(max_daemon_event_sequence(&Vec::new()), 0);
}
