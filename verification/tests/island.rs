use cua_voice::hud::{island_scene_from_snapshot, HudDisplay};
use cua_voice::island::{
    ambient_duration_ms, animated_gradient_pair, automation_double_click_coords,
    background_colors, background_contrast_scrim_percent, gauge_caption, is_default_solid_background,
    parse_hex_color, resolve_reduced_motion, ring_ambient_active,
    should_reset_after_reply_collapse, shown_scene, ui_mode_from_flags,
    VoiceHud,
};
use cua_voice::scene::{
    IslandAmbientKind, IslandAmbientPattern, IslandBackground, IslandColorStop, IslandScene,
    IslandTheme,
};
use cua_voice::time::from_millis;
use cua_voice::turn::DEFAULT_PLANNER_MODEL;
use cua_voice::ui_state::{HudPhase, HudSnapshot, UiMode, VoiceUiEvent};

fn scene_of(
    snapshot: &HudSnapshot,
    display: &HudDisplay,
    expanded: bool,
    reply_visible: bool,
    model_label: &str,
    elapsed_secs: u64,
) -> IslandScene {
    island_scene_from_snapshot(
        snapshot,
        display,
        expanded,
        reply_visible,
        model_label,
        elapsed_secs,
        |_: &IslandScene| Ok::<(), String>(()),
    )
    .unwrap()
}

#[test]
fn island_background_color_parser_accepts_only_hex_rgb() {
    assert_eq!(parse_hex_color("#1e9bff"), Some(0x1e9bff));
    assert_eq!(parse_hex_color("#000000"), Some(0x000000));
    assert_eq!(parse_hex_color("1e9bff"), None);
    assert_eq!(parse_hex_color("#fff"), None);
    assert_eq!(parse_hex_color("#nothex"), None);
    assert_eq!(parse_hex_color("#FFFFFF"), Some(0xffffff));
    assert_eq!(parse_hex_color("#12345é"), None);
}

#[test]
fn ambient_patterns_are_bounded_and_never_part_of_the_default_scene() {
    let snapshot = HudSnapshot::default();
    let display = HudDisplay::from_snapshot(&snapshot);
    let scene = scene_of(&snapshot, &display, false, false, DEFAULT_PLANNER_MODEL, 0);
    assert!(scene.ambient.is_empty());

    let mut pattern = IslandAmbientPattern {
        id: "soft-sweep".to_string(),
        kind: IslandAmbientKind::SoftSweep,
        active: true,
        color: "#1e9bff".to_string(),
        opacity: 24,
        speed: 2,
    };
    assert_eq!(ambient_duration_ms(&pattern), 3_000);
    pattern.speed = 0;
    assert_eq!(ambient_duration_ms(&pattern), 6_000);
    pattern.speed = 255;
    assert_eq!(ambient_duration_ms(&pattern), 250);
}

#[test]
fn reduced_motion_freezes_ambient_loops_but_keeps_step_progress() {
    assert!(ring_ambient_active(true, Some((1, 4)), true));
    assert!(!ring_ambient_active(true, None, true));
    assert!(ring_ambient_active(true, None, false));
}

#[test]
fn reduced_motion_respects_explicit_or_system_request() {
    assert!(!resolve_reduced_motion(false, false));
    assert!(resolve_reduced_motion(true, false));
    assert!(resolve_reduced_motion(false, true));
    assert!(resolve_reduced_motion(true, true));
}

#[test]
fn ui_mode_flags_default_headful_and_accept_headless() {
    assert_eq!(ui_mode_from_flags(false, false), UiMode::Headful);
    assert_eq!(ui_mode_from_flags(true, false), UiMode::Headful);
    assert_eq!(ui_mode_from_flags(false, true), UiMode::Headless);
}

#[test]
fn hud_constructor_applies_initial_ui_mode() {
    let hud = VoiceHud::new(UiMode::Headless);

    assert_eq!(hud.snapshot.mode, UiMode::Headless);
    assert_eq!(hud.snapshot.input_label, "Automation");
}

#[test]
fn automation_double_click_label_parses_only_double_left_clicks() {
    assert_eq!(
        automation_double_click_coords("Left mouse click at 756,38 x2"),
        Some(("756".to_string(), "38".to_string()))
    );
    assert_eq!(
        automation_double_click_coords("Left mouse click at 756,38"),
        None
    );
    assert_eq!(
        automation_double_click_coords("Right mouse click at 756,38 x2"),
        None
    );
    assert_eq!(
        automation_double_click_coords("Left mouse click at nope x2"),
        None
    );
    assert_eq!(
        automation_double_click_coords(" Left mouse click at 1.5 , 2 x255 "),
        Some(("1.5".to_string(), "2".to_string()))
    );
    assert_eq!(
        automation_double_click_coords("Left mouse click at 1,2 x256"),
        None
    );
    assert_eq!(
        automation_double_click_coords("Left mouse click at 1,2 x1"),
        None
    );
}

fn inside_island(label: &str) -> bool {
    automation_double_click_coords(label).is_some_and(|(x, y)| {
        let x = x.parse::<f32>().unwrap();
        let y = y.parse::<f32>().unwrap();
        x >= 100.0 && y >= 20.0 && x <= 100.0 + 300.0 && y <= 20.0 + 40.0
    })
}

#[test]
fn automation_double_click_on_island_toggles_once() {
    let mut hud = VoiceHud::new(UiMode::Headless);
    let label = "Left mouse click at 250,40 x2";
    let click = || VoiceUiEvent::AutomationActivity {
        label: label.to_string(),
        source: Some("Computer control".to_string()),
        tool: Some("Unix socket".to_string()),
    };

    assert_eq!(
        hud.apply_voice_event(click(), None, from_millis(1_000), inside_island(label)),
        Some(true)
    );
    assert_eq!(
        hud.apply_voice_event(click(), None, from_millis(1_001), inside_island(label)),
        None
    );
    assert_eq!(hud.snapshot.step.label, label);
}

#[test]
fn programmed_scene_drives_hud_until_reset() {
    let mut hud = VoiceHud::new(UiMode::Headful);
    let mut snapshot = HudSnapshot::default();
    snapshot.apply(VoiceUiEvent::AgentStep {
        label: "render programmable scene".to_string(),
        source: Some("automation".to_string()),
        task: Some("UI protocol".to_string()),
        tool: Some("Unix socket".to_string()),
        step_index: Some(2),
        step_total: Some(3),
        ttl_ms: None,
    });
    let display = HudDisplay::from_snapshot(&snapshot);
    let scene = scene_of(&snapshot, &display, true, false, DEFAULT_PLANNER_MODEL, 0);

    assert_eq!(
        hud.apply_voice_event(VoiceUiEvent::SceneSet(scene.clone()), None, 0, false),
        Some(true)
    );
    assert_eq!(hud.custom_scene.as_ref(), Some(&scene));

    assert_eq!(
        hud.apply_voice_event(VoiceUiEvent::Idle, None, from_millis(5), false),
        None
    );
    assert_eq!(hud.custom_scene.as_ref(), Some(&scene));

    assert_eq!(
        hud.apply_voice_event(VoiceUiEvent::SceneReset, None, from_millis(10), false),
        None
    );
    assert!(hud.custom_scene.is_none());
}

#[test]
fn toggles_follow_what_was_asked_before() {
    let mut hud = VoiceHud::new(UiMode::Headful);
    assert_eq!(
        hud.apply_voice_event(VoiceUiEvent::ToggleExpanded, Some(true), 0, false),
        Some(false)
    );
    assert_eq!(
        hud.apply_voice_event(
            VoiceUiEvent::ToggleExpanded,
            Some(false),
            from_millis(260) - 1,
            false
        ),
        Some(false)
    );
    assert_eq!(
        hud.apply_voice_event(VoiceUiEvent::ToggleExpanded, None, from_millis(260), false),
        Some(true)
    );
    hud.set_expanded(true);
    assert!(hud.shows_expanded());
    assert_eq!(
        hud.apply_voice_event(VoiceUiEvent::SetMinimized(true), Some(true), from_millis(300), false),
        None
    );
    assert!(hud.minimized && !hud.expanded && !hud.shows_expanded());
    hud.toggle_expanded();
    assert!(hud.shows_expanded());
}

#[test]
fn a_custom_theme_and_background_dress_any_scene() {
    let snapshot = HudSnapshot::default();
    let display = HudDisplay::from_snapshot(&snapshot);
    let made = scene_of(&snapshot, &display, false, false, DEFAULT_PLANNER_MODEL, 0);
    let theme = IslandTheme {
        name: "night".to_string(),
        tokens: vec![("text".to_string(), "#ffffff".to_string())],
    };
    let background = IslandBackground::Transparent { opacity: 16 };
    let scene = shown_scene(
        None,
        made.clone(),
        Some(theme.clone()),
        Some(background.clone()),
    );
    assert_eq!(scene.theme, Some(theme));
    assert_eq!(scene.background, background);
    assert_eq!(scene.regions, made.regions);
    assert_eq!(shown_scene(Some(made.clone()), scene, None, None), made);
}

#[test]
fn only_the_default_background_counts_as_default() {
    assert!(is_default_solid_background("#000000", 92));
    assert!(!is_default_solid_background("#000000", 91));
    assert!(!is_default_solid_background("#000001", 92));
}

#[test]
fn the_gauge_says_where_the_turn_is() {
    assert_eq!(gauge_caption(Some((2, 5)), HudPhase::Reply), "2 / 5");
    assert_eq!(gauge_caption(None, HudPhase::Reply), "Holding");
    assert_eq!(gauge_caption(None, HudPhase::Error), "Holding");
    assert_eq!(gauge_caption(None, HudPhase::Planning), "Planning");
}

fn scrim_alpha(background: &IslandBackground) -> f32 {
    let light = background_colors(background).iter().any(|color| {
        parse_hex_color(color).is_some_and(|value| {
            let r = ((value >> 16) & 0xff) as f32 / 255.0;
            let g = ((value >> 8) & 0xff) as f32 / 255.0;
            let b = (value & 0xff) as f32 / 255.0;
            0.2126 * r + 0.7152 * g + 0.0722 * b > 0.18
        })
    });
    f32::from(background_contrast_scrim_percent(background, light)) / 100.0
}

#[test]
fn background_contrast_scrim_preserves_default_and_protects_light_backdrops() {
    let default_background = IslandBackground::Solid {
        color: "#000000".to_string(),
        opacity: 92,
    };
    assert_eq!(scrim_alpha(&default_background), 0.0);

    let light_background = IslandBackground::Solid {
        color: "#eef8ff".to_string(),
        opacity: 92,
    };
    assert!(scrim_alpha(&light_background) >= 0.80);

    let translucent_background = IslandBackground::Transparent { opacity: 16 };
    assert!(scrim_alpha(&translucent_background) >= 0.75);

    let gradient_background = IslandBackground::AnimatedGradient {
        angle_degrees: 92,
        opacity: 82,
        duration_ms: 7200,
        stops: vec![
            IslandColorStop {
                offset: 0,
                color: "#eef8ff".to_string(),
            },
            IslandColorStop {
                offset: 1000,
                color: "#f4eaff".to_string(),
            },
        ],
    };
    assert!(scrim_alpha(&gradient_background) >= 0.80);

    let dark_sweep = IslandBackground::NeonSweep {
        base_color: "#000000".to_string(),
        sweep_color: "#101010".to_string(),
        opacity: 90,
        duration_ms: 900,
    };
    assert_eq!(background_colors(&dark_sweep), vec!["#000000", "#101010"]);
    assert_eq!(background_contrast_scrim_percent(&dark_sweep, false), 34);
    assert_eq!(background_contrast_scrim_percent(&dark_sweep, true), 74);
}

#[test]
fn animated_background_pair_cycles_without_reset_branch() {
    let stops = vec![
        IslandColorStop {
            offset: 0,
            color: "#000000".to_string(),
        },
        IslandColorStop {
            offset: 500,
            color: "#1e9bff".to_string(),
        },
        IslandColorStop {
            offset: 1000,
            color: "#9b5cff".to_string(),
        },
    ];
    let head = |elapsed_secs: f32, duration_ms: u16| {
        let duration = (duration_ms as f32 / 1_000.0).max(0.05);
        ((elapsed_secs % duration) / duration * stops.len() as f32).floor() as usize
    };

    let first = animated_gradient_pair(&stops, head(0.0, 900)).unwrap();
    let middle = animated_gradient_pair(&stops, head(0.31, 900)).unwrap();
    let wrapped = animated_gradient_pair(&stops, head(0.89, 900)).unwrap();

    assert_eq!(first.0.color, "#000000");
    assert_eq!(first.1.color, "#1e9bff");
    assert_eq!(middle.0.color, "#1e9bff");
    assert_eq!(middle.1.color, "#9b5cff");
    assert_eq!(wrapped.0.color, "#9b5cff");
    assert_eq!(wrapped.1.color, "#000000");
    assert!(animated_gradient_pair(&stops[..1].to_vec(), 0).is_none());
}

#[test]
fn reply_snapshot_survives_until_collapse_is_invisible() {
    let invisible = |progress: f32| progress == 0.0;
    assert!(!should_reset_after_reply_collapse(true, invisible(0.42)));
    assert!(should_reset_after_reply_collapse(true, invisible(0.0)));
    assert!(!should_reset_after_reply_collapse(false, invisible(0.0)));
}
