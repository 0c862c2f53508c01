use cua_voice::hud::{
    compact_label, dot_chase_speed, elapsed_label, island_scene_from_snapshot, short_tool,
    HudDisplay,
};
use cua_voice::scene::{
    center_text_for, scene_dot_chase, scene_footer, scene_region, scene_renders_expanded_body,
    scene_row, scene_step_counter, scene_tool_rows, tool_meta_text, IslandItem, IslandLayout,
    IslandScene, SceneToolRow, ISLAND_SCHEMA_VERSION,
};
use cua_voice::turn::DEFAULT_PLANNER_MODEL;
use cua_voice::ui_state::{HudPhase, HudSnapshot, UiMode, VoiceUiEvent};

fn scene_of(
    snapshot: &HudSnapshot,
    display: &HudDisplay,
    expanded: bool,
    reply_visible: bool,
    model_label: &str,
    elapsed_secs: u64,
) -> IslandScene {
    island_scene_from_snapshot(
        snapshot,
        display,
        expanded,
        reply_visible,
        model_label,
        elapsed_secs,
        |_: &IslandScene| Ok::<(), String>(()),
    )
    .unwrap()
}

fn items<'a>(scene: &'a IslandScene, region: &str) -> &'a Vec<IslandItem> {
    &scene_region(scene, region).unwrap().items
}

fn step(
    label: &str,
    source: &str,
    task: &str,
    tool: &str,
    step_index: Option<u16>,
    step_total: Option<u16>,
) -> VoiceUiEvent {
    VoiceUiEvent::AgentStep {
        label: label.to_string(),
        source: Some(source.to_string()),
        task: Some(task.to_string()),
        tool: Some(tool.to_string()),
        step_index,
        step_total,
        ttl_ms: None,
    }
}

fn scene_center_text(snapshot: &HudSnapshot) -> String {
    let display = HudDisplay::from_snapshot(snapshot);
    let scene = scene_of(snapshot, &display, false, false, DEFAULT_PLANNER_MODEL, 0);
    center_text_for(&scene).unwrap()
}

fn step_snapshot(index: u16, total: u16, label: &str) -> HudSnapshot {
    let mut snapshot = HudSnapshot::default();
    snapshot.apply(step(label, "remote", "Test", "Unix socket", Some(index), Some(total)));
    snapshot
}

#[test]
fn display_prefers_transcript_for_prompt_and_reply_for_result() {
    let mut snapshot = HudSnapshot::default();
    snapshot.apply(VoiceUiEvent::Transcript("Click 640 360".to_string()));
    snapshot.apply(VoiceUiEvent::Reply("Clicked.".to_string()));

    let display = HudDisplay::from_snapshot(&snapshot);

    assert_eq!(display.prompt, "Click 640 360");
    assert_eq!(display.result, "Clicked.");
    assert_eq!(display.phase, "Reply");
}

#[test]
fn display_rows_follow_actual_voice_turn_state() {
    let mut snapshot = HudSnapshot::default();
    snapshot.apply(VoiceUiEvent::Transcript("Move 10-20.".to_string()));
    snapshot.apply(VoiceUiEvent::Planning {
        tool: "Command parser".to_string(),
    });
    snapshot.apply(VoiceUiEvent::Dispatching(
        "MouseMove { x: 10, y: 20 }".to_string(),
    ));

    let display = HudDisplay::from_snapshot(&snapshot);

    assert_eq!(display.title, "Move 10-20.");
    assert_eq!(display.rows[0].label, "Move 10-20.");
    assert_eq!(display.rows[1].tool, "Socket");
    assert_eq!(display.rows[1].app, "macOS");
    assert_eq!(display.tool, "Socket");
    assert_eq!(display.target, "macOS");
}

#[test]
fn display_chips_track_live_voice_and_screen_surfaces() {
    let mut listening = HudSnapshot::default();
    listening.apply(VoiceUiEvent::Listening { ms: 120 });
    let display = HudDisplay::from_snapshot(&listening);

    assert_eq!(display.tool, "Mic");
    assert_eq!(display.target, "Microphone");

    let mut screen = HudSnapshot::default();
    screen.apply(VoiceUiEvent::AgentStep {
        label: "capturing full screen".to_string(),
        source: Some("external agent".to_string()),
        task: Some("Observe".to_string()),
        tool: Some("Screen capture".to_string()),
        step_index: Some(1),
        step_total: Some(3),
        ttl_ms: None,
    });
    let display = HudDisplay::from_snapshot(&screen);

    assert_eq!(display.tool, "Screen");
    assert_eq!(display.target, "Screen");
}

#[test]
fn display_chips_track_local_stt_without_router_label() {
    let mut snapshot = HudSnapshot::default();
    snapshot.apply(VoiceUiEvent::Transcribing);

    let display = HudDisplay::from_snapshot(&snapshot);

    assert_eq!(display.tool, "STT");
    assert_eq!(display.target, "STT");
    assert_eq!(display.rows[0].tool, "STT");
    assert_eq!(display.rows[1].tool, "STT");
}

#[test]
fn protocol_step_fields_propagate_to_hud_labels_and_chips() {
    let mut snapshot = HudSnapshot::default();
    snapshot.apply(step(
        "Inspecting Safari address bar",
        "external agent",
        "Browse test",
        "Safari",
        Some(7),
        Some(11),
    ));

    let display = HudDisplay::from_snapshot(&snapshot);

    assert_eq!(display.title, "Automation");
    assert_eq!(display.tool, "Safari");
    assert_eq!(display.target, "Safari");
    assert_eq!(display.rows[1].label, "Inspecting Safari address bar");
    assert_eq!(display.rows[1].tool, "Safari");
    assert_eq!(display.rows[1].app, "Safari");
    assert_eq!(snapshot.task, "Browse test");
    assert_eq!(snapshot.step.index, Some(7));
    assert_eq!(snapshot.step.total, Some(11));
}

#[test]
fn display_title_uses_live_input_label_without_transcript() {
    let mut snapshot = HudSnapshot::default();
    snapshot.apply(step(
        "checking browser",
        "external agent",
        "Browser task",
        "Unix socket",
        Some(1),
        Some(4),
    ));

    let display = HudDisplay::from_snapshot(&snapshot);

    assert_eq!(display.title, "Automation");
}

#[test]
fn compact_labels_are_bounded() {
    let label = compact_label("one two three four five six", 13);

    assert_eq!(label, "one two three...");
    assert_eq!(compact_label("  one \n two ", 7), "one two");
    assert_eq!(compact_label("abc", 0), "...");
    assert_eq!(compact_label("", 0), "");
    for value in ["one two three", " one  two\tthree ", "onetwothree", "...", ""] {
        for limit in 0..16 {
            let label = compact_label(value, limit);
            assert_eq!(compact_label(&label, limit), label);
        }
    }
}

#[test]
fn tool_labels_stay_chip_sized() {
    assert_eq!(short_tool("Unix socket"), "Socket");
    assert_eq!(short_tool("OpenRouter Vision"), "Router");
    assert_eq!(short_tool("Whisper STT"), "STT");
    assert_eq!(short_tool("Microphone"), "Mic");
    assert_eq!(short_tool("Screen capture"), "Screen");
    assert_eq!(short_tool("HTTP"), "HTTP");
    assert_eq!(short_tool("Finder"), "Finder");
}

#[test]
fn compact_scene_reproduces_current_hud_baseline() {
    let snapshot = HudSnapshot::default();
    let display = HudDisplay::from_snapshot(&snapshot);

    let scene = scene_of(&snapshot, &display, false, false, DEFAULT_PLANNER_MODEL, 0);

    assert_eq!(scene.schema_version, ISLAND_SCHEMA_VERSION);
    assert_eq!(scene.layout, IslandLayout::Compact);
    let left = items(&scene, "left");
    let center = items(&scene, "center");
    let right = items(&scene, "right");
    assert!(matches!(
        &left[1],
        IslandItem::Label { id, text } if id == "input" && text == "Voice control"
    ));
    assert!(matches!(
        &center[0],
        IslandItem::Marquee { id, text } if id == "status" && text == "Ready"
    ));
    assert!(matches!(
        &right[2],
        IslandItem::DotChase { id, active: false, count: 6, speed: 0, .. } if id == "activity"
    ));
}

#[test]
fn compact_scene_uses_reply_as_center_marquee() {
    let mut snapshot = HudSnapshot::default();
    snapshot.apply(VoiceUiEvent::Reply(
        "I can see the current desktop and the app is ready.".to_string(),
    ));
    let display = HudDisplay::from_snapshot(&snapshot);

    let scene = scene_of(&snapshot, &display, false, true, DEFAULT_PLANNER_MODEL, 0);

    assert!(matches!(
        &items(&scene, "center")[0],
        IslandItem::Marquee { text, .. }
            if text == "I can see the current desktop and the app is ready."
    ));
    assert!(matches!(
        &items(&scene, "right")[2],
        IslandItem::DotChase { active: true, speed: 5, .. }
    ));
}

#[test]
fn expanded_scene_carries_task_rows_and_step_counter() {
    let mut snapshot = HudSnapshot::default();
    snapshot.apply(step(
        "Checking Safari results",
        "automation",
        "Research",
        "Safari",
        Some(3),
        Some(12),
    ));
    let display = HudDisplay::from_snapshot(&snapshot);

    let scene = scene_of(&snapshot, &display, true, false, DEFAULT_PLANNER_MODEL, 67);

    assert_eq!(scene.layout, IslandLayout::Expanded);
    assert!(matches!(
        &items(&scene, "task")[1],
        IslandItem::StepCounter { id, index: 3, total: 12 } if id == "step"
    ));
    assert!(matches!(
        &items(&scene, "details_left")[0],
        IslandItem::Row { value, .. } if value == "Checking Safari results"
    ));
    assert!(matches!(
        &items(&scene, "footer")[0],
        IslandItem::Label { text, .. } if text == "Elapsed 01:07"
    ));
}

#[test]
fn expanded_scene_is_read_back_in_full() {
    let mut snapshot = HudSnapshot::default();
    snapshot.apply(VoiceUiEvent::Transcript("open notes".to_string()));
    snapshot.apply(step("typing", "automation", "Notes", "Keyboard", Some(2), Some(5)));
    let display = HudDisplay::from_snapshot(&snapshot);
    let scene = scene_of(&snapshot, &display, true, false, "some model", 3_661);

    assert!(scene_renders_expanded_body(&scene));
    assert_eq!(center_text_for(&scene).unwrap(), "Step 2/5   typing");
    assert_eq!(scene_step_counter(&scene), Some((2, 5)));
    assert_eq!(scene_row(&scene, "task", "task").unwrap(), "open notes");
    assert_eq!(scene_row(&scene, "response", "response").unwrap(), "open notes");
    let dots = scene_dot_chase(&scene).unwrap();
    assert!(dots.active && dots.count == 6 && dots.speed == 8);
    let (first, second) = scene_tool_rows(&scene);
    assert_eq!(first.label, "open notes");
    assert_eq!(second.label, "typing");
    assert_eq!(second.app, "macOS");
    assert_eq!(second.age, "live");
    let footer = scene_footer(&scene).unwrap();
    assert_eq!(footer.elapsed, "Elapsed 61:01");
    assert_eq!(footer.model, "Model some model");
    assert_eq!(footer.transport, "Transport Keyboard");
}

#[test]
fn compact_scene_never_renders_expanded_body() {
    let snapshot = HudSnapshot::default();
    let display = HudDisplay::from_snapshot(&snapshot);
    let compact = scene_of(&snapshot, &display, false, false, DEFAULT_PLANNER_MODEL, 0);
    let expanded = scene_of(&snapshot, &display, true, false, DEFAULT_PLANNER_MODEL, 0);

    assert!(!scene_renders_expanded_body(&compact));
    assert!(scene_renders_expanded_body(&expanded));
    assert!(scene_footer(&compact).is_none());
}

#[test]
fn tool_meta_uses_reference_separator_rhythm() {
    let row = SceneToolRow {
        label: "Choosing action".to_string(),
        tool: "Router".to_string(),
        app: "Model".to_string(),
        age: "now".to_string(),
    };

    assert_eq!(tool_meta_text(&row), "Router · Model · now");
}

#[test]
fn step_label_stays_compact_and_structured() {
    assert_eq!(
        scene_center_text(&step_snapshot(2, 5, "checking target")),
        "Step 2/5   checking target"
    );
}

#[test]
fn step_label_accepts_declarative_totals_beyond_voice_defaults() {
    assert_eq!(
        scene_center_text(&step_snapshot(37, 120, "verifying the selected window")),
        "Step 37/120   verifying the selected window"
    );
}

#[test]
fn idle_center_text_does_not_show_zero_step_counter() {
    assert_eq!(scene_center_text(&HudSnapshot::default()), "Ready");
}

#[test]
fn recording_center_text_is_plain_listening() {
    let mut snapshot = HudSnapshot::default();
    snapshot.apply(VoiceUiEvent::Listening { ms: 1_250 });

    assert_eq!(scene_center_text(&snapshot), "Listening");
}

#[test]
fn accepted_center_text_is_plain_accepted() {
    let mut snapshot = HudSnapshot::default();
    snapshot.apply(VoiceUiEvent::Accepted);

    assert_eq!(scene_center_text(&snapshot), "Accepted");
}

#[test]
fn recording_stopped_center_text_is_plain_stopped() {
    let mut snapshot = HudSnapshot::default();
    snapshot.apply(VoiceUiEvent::RecordingStopped);

    assert_eq!(scene_center_text(&snapshot), "Recording Stopped");
}

#[test]
fn transcribing_center_text_is_plain_processing() {
    let mut snapshot = HudSnapshot::default();
    snapshot.apply(VoiceUiEvent::Transcribing);

    assert_eq!(scene_center_text(&snapshot), "Processing");
}

#[test]
fn elapsed_labels_have_two_digits() {
    assert_eq!(elapsed_label(0), "00:00");
    assert_eq!(elapsed_label(599), "09:59");
    assert_eq!(elapsed_label(6_000), "100:00");
}

#[test]
fn dots_rest_only_when_idle() {
    let mut snapshot = HudSnapshot::default();
    assert_eq!(dot_chase_speed(&snapshot), 0);
    snapshot.apply(VoiceUiEvent::Error("it failed".to_string()));
    assert_eq!(dot_chase_speed(&snapshot), 10);
    assert_eq!(snapshot.phase, HudPhase::Error);
    snapshot.apply(VoiceUiEvent::Idle);
    assert_eq!(dot_chase_speed(&snapshot), 0);
    assert_eq!(snapshot.mode, UiMode::Headful);
}

#[test]
fn active_center_text_uses_protocol_step_label() {
    let mut snapshot = HudSnapshot::default();
    snapshot.apply(VoiceUiEvent::AgentStep {
        label: "Opening Safari with cua".to_string(),
        source: Some("remote".to_string()),
        task: Some("Web browsing".to_string()),
        tool: Some("Unix socket".to_string()),
        step_index: Some(2),
        step_total: Some(5),
        ttl_ms: Some(2_000),
    });

    assert_eq!(
        scene_center_text(&snapshot),
        "Step 2/5   Opening Safari with cua"
    );
}

#[test]
fn center_text_omits_counter_without_protocol_step_numbers() {
    let mut snapshot = HudSnapshot::default();
    snapshot.apply(VoiceUiEvent::Planning {
        tool: "OpenRouter Vision".to_string(),
    });
    assert_eq!(scene_center_text(&snapshot), "Choosing action");

    snapshot.apply(VoiceUiEvent::AgentStep {
        label: "checking target".to_string(),
        source: Some("remote".to_string()),
        task: Some("Web browsing".to_string()),
        tool: Some("Unix socket".to_string()),
        step_index: None,
        step_total: None,
        ttl_ms: Some(2_000),
    });
    assert_eq!(scene_center_text(&snapshot), "checking target");
}

#[test]
fn a_scene_that_is_refused_gives_the_error_of_the_validation() {
    let snapshot = HudSnapshot::default();
    let display = HudDisplay::from_snapshot(&snapshot);
    let refuse = |scene: &IslandScene| {
        assert_eq!(scene.layout, IslandLayout::Compact);
        Err::<(), u8>(7)
    };
    let result = island_scene_from_snapshot(&snapshot, &display, false, false, "m", 0, refuse);
    assert_eq!(result.unwrap_err(), 7);
}
