use cua_voice::launch::{
    demo_sequence, demo_should_run, launched_from_app_bundle, path_looks_packaged_app,
    request_desktop_permission_once, single_instance_socket_path, PermissionPrompt,
};
use cua_voice::paths::{
    desktop_permission_prompt_marker_path_under, join_path,
    legacy_desktop_permission_prompt_marker_path_under, profile_socket_path, profile_token_path,
};
use cua_voice::ui_state::VoiceUiEvent;
use std::path::Path;

fn parts(path: &str) -> Vec<String> {
    Path::new(path)
        .components()
        .filter_map(|component| component.as_os_str().to_str())
        .map(str::to_string)
        .collect()
}

#[test]
fn packaged_app_ignores_inherited_demo_arg() {
    assert!(path_looks_packaged_app(&parts(
        "/Applications/cua.app/Contents/MacOS/cua-voice"
    )));
    assert!(!demo_should_run(
        true,
        &Some(parts("/Applications/cua.app/Contents/MacOS/cua-voice"))
    ));
    assert!(demo_should_run(true, &Some(parts("/tmp/cua-voice"))));
    assert!(!demo_should_run(false, &Some(parts("/tmp/cua-voice"))));
    assert!(demo_should_run(true, &None));
    assert!(!path_looks_packaged_app(&parts("/cua.app/Contents")));
    assert!(!path_looks_packaged_app(&parts("/cua.app/x/Contents/MacOS")));
}

#[test]
fn bundles_are_told_by_their_path() {
    let bundled = "/Applications/cua.app/Contents/MacOS/cua-voice".to_string();
    assert!(launched_from_app_bundle(&Some(bundled)));
    assert!(!launched_from_app_bundle(&Some("/tmp/cua-voice".to_string())));
    assert!(!launched_from_app_bundle(&None));
}

#[test]
fn single_instance_socket_path_sanitizes_profile() {
    let path = single_instance_socket_path("profile/with spaces", 0x2a);
    let name = Path::new(&path).file_name().unwrap().to_string_lossy();

    assert!(name.starts_with("cua-voice-profile_with_spaces-"));
    assert!(name.ends_with(".sock"));
    assert!(path.len() < 104);
    assert_eq!(
        path,
        "/tmp/cua-voice-profile_with_spaces-000000000000002a.sock"
    );
    assert_eq!(
        single_instance_socket_path("abcdefghijklmnopqrstuvwxyz", u64::MAX),
        "/tmp/cua-voice-abcdefghijklmnopqrstuvwx-ffffffffffffffff.sock"
    );
}

#[test]
fn desktop_permission_prompt_marker_is_app_scoped_not_profile_scoped() {
    let home = "/tmp/cua-test-home";
    let first = desktop_permission_prompt_marker_path_under(home, "screen-recording");
    let second = desktop_permission_prompt_marker_path_under(home, "screen-recording");

    assert_eq!(first, second);
    assert_eq!(
        Path::new(&first),
        Path::new("/tmp/cua-test-home")
            .join(".cua")
            .join("permission-prompts")
            .join("io.saint0x.cua")
            .join("screen-recording")
    );
}

#[test]
fn legacy_desktop_permission_prompt_marker_stays_profile_scoped_for_migration_only() {
    let home = "/tmp/cua-test-home";
    let first =
        legacy_desktop_permission_prompt_marker_path_under(home, "default", "screen-recording");
    let second =
        legacy_desktop_permission_prompt_marker_path_under(home, "other", "screen-recording");

    assert_ne!(first, second);
    assert_eq!(
        Path::new(&first),
        Path::new("/tmp/cua-test-home")
            .join(".cua")
            .join("profiles")
            .join("default")
            .join("permission-prompts")
            .join("screen-recording")
    );
}

#[test]
fn paths_are_joined_as_the_system_does() {
    for (base, part) in [
        ("/a", "b"),
        ("/a/", "b"),
        ("/a", "/b"),
        ("", "b"),
        ("a", ""),
        ("/", "x"),
        ("a/b", "c/d"),
    ] {
        let expected = Path::new(base).join(part);
        assert_eq!(join_path(base, part), expected.to_str().unwrap());
    }
    assert_eq!(
        profile_socket_path("/home/me", "work"),
        "/home/me/.cua/profiles/work/daemon.sock"
    );
    assert_eq!(
        profile_token_path("/home/me", "work"),
        "/home/me/.cua/profiles/work/http.token"
    );
}

#[test]
fn a_permission_is_asked_for_once() {
    assert_eq!(
        request_desktop_permission_once(false, false),
        PermissionPrompt::Request
    );
    assert_eq!(
        request_desktop_permission_once(false, true),
        PermissionPrompt::Adopt
    );
    assert_eq!(
        request_desktop_permission_once(true, false),
        PermissionPrompt::Report
    );
}

#[test]
fn the_demonstration_ends_with_a_reply() {
    let events = demo_sequence();
    assert_eq!(events.len(), 9);
    assert!(matches!(events[0], VoiceUiEvent::Armed));
    assert!(matches!(
        &events[8],
        VoiceUiEvent::Reply(text) if text == "Clicked the center target."
    ));
}
