use cua_voice::daemon::{
    daemon_args, embedded_daemon_startup_timeout, http_token_override_allowed, known_profile_token,
    new_profile_token, profile_token_of, restart_is_due, sibling_cua_binary_from, token_file, wait_until_ready,
    Readiness,
};
use cua_voice::time::from_millis;

fn set(value: &str) -> Option<String> {
    Some(value.to_string())
}

#[test]
fn sibling_binary_resolves_next_to_voice_binary() {
    let exe = "/Users/example/App.app/Contents/MacOS/cua-voice";
    let parent = set("/Users/example/App.app/Contents/MacOS");
    let path = sibling_cua_binary_from(exe, &parent, false).unwrap_err();

    assert!(path.contains("bundled cua binary not found"));
    assert_eq!(
        sibling_cua_binary_from(exe, &parent, true).unwrap(),
        "/Users/example/App.app/Contents/MacOS/cua"
    );
    assert_eq!(
        sibling_cua_binary_from("/", &None, true).unwrap_err(),
        "current executable has no parent: /"
    );
}

#[test]
fn wait_until_ready_retries_until_success() {
    let mut attempts = 0;
    let mut now: u128 = 0;
    let deadline = now + from_millis(1 * 1_000);
    loop {
        attempts += 1;
        let check = if attempts < 3 {
            Err("not yet".to_string())
        } else {
            Ok(())
        };
        match wait_until_ready(&check, now, deadline) {
            Readiness::Ready => break,
            Readiness::Retry => now += from_millis(35),
            Readiness::TimedOut(message) => panic!("{message}"),
        }
    }

    assert_eq!(attempts, 3);
    assert_eq!(
        wait_until_ready(&Err("not yet".to_string()), deadline, deadline),
        Readiness::TimedOut("timed out waiting for cua daemon socket: not yet".to_string())
    );
}

#[test]
fn embedded_daemon_startup_timeout_is_bounded_and_configurable() {
    assert_eq!(embedded_daemon_startup_timeout(&None), 30 * 1_000);
    assert_eq!(embedded_daemon_startup_timeout(&set("750")), 750);
    assert_eq!(embedded_daemon_startup_timeout(&set("1")), 500);
    assert_eq!(embedded_daemon_startup_timeout(&set("300000")), 120 * 1_000);
    assert_eq!(embedded_daemon_startup_timeout(&set("nope")), 30 * 1_000);
    assert_eq!(embedded_daemon_startup_timeout(&set("0")), 30 * 1_000);
    assert_eq!(embedded_daemon_startup_timeout(&set(" 900 ")), 900);
}

#[test]
fn the_daemon_starts_without_a_window() {
    assert_eq!(
        daemon_args("work"),
        vec![
            "--profile",
            "work",
            "serve",
            "--addr",
            "127.0.0.1:0",
            "--hud-mode",
            "headless"
        ]
    );
}

#[test]
fn tokens_are_found_in_order() {
    assert_eq!(known_profile_token(&set("a"), &set("b")), set("a"));
    assert_eq!(known_profile_token(&set(" "), &set(" b\n")), set("b"));
    assert_eq!(known_profile_token(&None, &set("\n")), None);
    assert!(http_token_override_allowed(&set("1")));
    assert!(http_token_override_allowed(&set("TRUE")));
    assert!(!http_token_override_allowed(&set("yes")));
    assert!(!http_token_override_allowed(&None));
}

#[test]
fn new_tokens_differ() {
    assert_eq!(profile_token_of("1-a"), "cua-1-a");
    let first = new_profile_token();
    assert!(first.starts_with("cua-"));
    assert_eq!(first.len(), "cua-".len() + 36);
    assert_eq!(&first[4 + 14..4 + 15], "4");
    assert_eq!(first.matches('-').count(), 5);
    assert_ne!(first, new_profile_token());
}

#[test]
fn a_written_token_is_read_back() {
    let token = new_profile_token();
    let file = token_file(&token);
    assert_eq!(file, format!("{token}\n"));
    assert_eq!(known_profile_token(&None, &Some(file)), Some(token));
}

#[test]
fn the_daemon_is_restarted_at_most_once_a_second() {
    assert!(!restart_is_due(from_millis(1_000), from_millis(2_000) - 1));
    assert!(restart_is_due(from_millis(1_000), from_millis(2_000)));
}
