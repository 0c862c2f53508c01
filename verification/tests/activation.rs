use cua_voice::activation::{
    control_poll_sample_triggers_arm, island_mouse_event_triggers_toggle,
    island_mouse_sample_triggers_toggle, ControlDoubleTap, LeftMouseEventKind, ShortcutController,
    ShortcutRequest,
};
use cua_voice::time::from_millis;

#[test]
fn quick_double_tap_triggers_once() {
    let start = from_millis(1_000);
    let mut detector = ControlDoubleTap::new(from_millis(360));
    assert!(!detector.key_down());
    assert!(!detector.key_up(start));
    assert!(!detector.key_down());
    assert!(detector.key_up(start + from_millis(140)));
    assert!(!detector.key_up(start + from_millis(180)));
}

#[test]
fn slow_double_tap_does_not_trigger() {
    let start = from_millis(1_000);
    let mut detector = ControlDoubleTap::new(from_millis(120));
    detector.key_down();
    assert!(!detector.key_up(start));
    detector.key_down();
    assert!(!detector.key_up(start + from_millis(300)));
}

#[test]
fn a_double_tap_is_used_up() {
    let mut detector = ControlDoubleTap::default();
    for (at, expected) in [(10, false), (20, true), (30, false), (40, true)] {
        assert!(!detector.key_down());
        assert_eq!(detector.key_up(from_millis(at)), expected);
    }
}

#[test]
fn the_default_window_is_inclusive() {
    let mut detector = ControlDoubleTap::default();
    detector.key_down();
    assert!(!detector.key_up(0));
    detector.key_down();
    assert!(detector.key_up(from_millis(360)));
    detector.key_down();
    assert!(!detector.key_up(from_millis(1_000)));
    detector.key_down();
    assert!(!detector.key_up(from_millis(1_361)));
}

#[test]
fn control_polling_bridge_triggers_on_quick_double_control_release() {
    let start = from_millis(5_000);
    let mut detector = ControlDoubleTap::default();
    let mut was_down = false;
    let samples = [
        (true, 0, false),
        (false, 40, false),
        (true, 120, false),
        (false, 160, true),
        (false, 200, false),
    ];

    for (is_down, ms, expected) in samples {
        assert_eq!(
            control_poll_sample_triggers_arm(&mut detector, &mut was_down, is_down, start + from_millis(ms)),
            expected
        );
    }
}

#[test]
fn island_mouse_poll_toggles_only_for_inside_double_tap() {
    let start = from_millis(5_000);
    let inside = point_inside((250.0, 40.0));
    let outside = point_inside((80.0, 40.0));
    assert!(inside && !outside);
    let mut detector = ControlDoubleTap::default();
    let mut was_down = false;
    let mut tap_started_inside = false;

    for (is_down, at, ms, expected) in [
        (true, inside, 0, false),
        (false, inside, 40, false),
        (true, outside, 120, false),
        (false, inside, 160, false),
        (true, inside, 220, false),
        (false, inside, 260, true),
    ] {
        assert_eq!(
            island_mouse_sample_triggers_toggle(
                &mut detector,
                &mut was_down,
                &mut tap_started_inside,
                is_down,
                at,
                start + from_millis(ms),
            ),
            expected
        );
    }
}

fn point_inside(point: (f32, f32)) -> bool {
    let origin = (100.0, 20.0);
    let size = (300.0, 40.0);
    point.0 >= origin.0
        && point.1 >= origin.1
        && point.0 <= origin.0 + size.0
        && point.1 <= origin.1 + size.1
}

#[test]
fn island_mouse_event_tap_toggles_only_for_inside_double_tap() {
    let start = from_millis(5_000);
    let mut detector = ControlDoubleTap::default();
    let mut tap_started_inside = false;

    for (kind, point, ms, expected) in [
        (LeftMouseEventKind::Down, (250.0, 40.0), 0, false),
        (LeftMouseEventKind::Up, (250.0, 40.0), 40, false),
        (LeftMouseEventKind::Down, (80.0, 40.0), 120, false),
        (LeftMouseEventKind::Up, (250.0, 40.0), 160, false),
        (LeftMouseEventKind::Down, (250.0, 40.0), 220, false),
        (LeftMouseEventKind::Up, (250.0, 40.0), 260, true),
    ] {
        assert_eq!(
            island_mouse_event_triggers_toggle(
                &mut detector,
                &mut tap_started_inside,
                kind,
                point_inside(point),
                start + from_millis(ms),
            ),
            expected
        );
    }
}

#[test]
fn shortcut_controller_toggles_active_voice_turn_stop() {
    let mut controller = ShortcutController::new();

    let ShortcutRequest::Start(first) = controller.shortcut_trigger_requests_start() else {
        panic!("the first tap starts a turn");
    };
    assert_eq!(
        controller.shortcut_trigger_requests_start(),
        ShortcutRequest::Stop(first)
    );

    controller.shortcut_turn_finished(first);
    let ShortcutRequest::Start(second) = controller.shortcut_trigger_requests_start() else {
        panic!("a tap after the end starts a turn");
    };
    assert_ne!(first, second);
    controller.shortcut_turn_finished(first);
    assert_eq!(
        controller.shortcut_trigger_requests_start(),
        ShortcutRequest::Stop(second)
    );
}

#[test]
fn a_tap_just_after_the_window_is_a_new_one() {
    let mut detector = ControlDoubleTap::default();
    detector.key_down();
    assert!(!detector.key_up(0));
    detector.key_down();
    assert!(!detector.key_up(from_millis(360) + 1));
    detector.key_down();
    assert!(detector.key_up(from_millis(720) + 1));
}
