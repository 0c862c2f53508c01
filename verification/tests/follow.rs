use cua_voice::action::InputAction;
use cua_voice::audio::finish_recording;
use cua_voice::client::{CuaClient, UiStep};
use cua_voice::follow::{AgentPoll, InboxPoll, PollNews, PollStep};
use cua_voice::json::Json;
use cua_voice::json_text::{parse_json, print_json};
use cua_voice::launch::{single_instance_claim, InstanceClaim};
use cua_voice::speech::SttTranscript;
use cua_voice::time::from_millis;
use cua_voice::turn::{recording_finished, speech_events, RecordingSource};
use cua_voice::ui_state::{UiMode, VoiceUiEvent};

fn json(text: &str) -> Json {
    parse_json(text).unwrap()
}

fn printed(value: Option<Json>) -> String {
    print_json(&value.unwrap()).unwrap()
}

fn step_event(sequence: u64) -> Json {
    json(&format!(
        r#"{{"sequence":{sequence},"kind":"ui_step","data":{{"label":"look {sequence}","source":"planner"}}}}"#
    ))
}

fn message_event(sequence: u64) -> Json {
    json(&format!(
        r#"{{"sequence":{sequence},"kind":"inbound_message","data":{{"message_id":"m{sequence}","text":"open notes"}}}}"#
    ))
}

fn connect(start_daemon: bool, pause_ms: u64) -> PollStep {
    PollStep::Connect { start_daemon, pause_ms }
}

fn await_after(after: u64) -> PollStep {
    PollStep::Await { after, timeout_ms: 1_000 }
}

#[test]
fn agent_events_are_followed_from_the_snapshot_on() {
    let mut poll = AgentPoll::new();
    let (step, told) = poll.next(&PollNews::Connected, 0);
    assert_eq!(step, PollStep::Snapshot);
    assert!(told.is_empty());
    let seen = vec![step_event(4), step_event(7)];
    let (step, told) = poll.next(&PollNews::Snapshot(Ok(seen)), 0);
    assert_eq!(step, await_after(7));
    assert!(told.is_empty());
    let news = vec![step_event(7), step_event(8), step_event(9)];
    let (step, told) = poll.next(&PollNews::Events(Ok(news)), 0);
    assert_eq!(step, await_after(9));
    assert_eq!(told.len(), 2);
    assert!(matches!(&told[0], VoiceUiEvent::AgentStep { label, .. } if label == "look 8"));
    assert!(matches!(&told[1], VoiceUiEvent::AgentStep { label, .. } if label == "look 9"));
    let (step, told) = poll.next(&PollNews::Events(Ok(vec![step_event(8)])), 0);
    assert_eq!(step, await_after(9));
    assert!(told.is_empty());
    let (step, _) = poll.next(&PollNews::Connected, 0);
    assert_eq!(step, await_after(9));
}

#[test]
fn agent_poll_connects_again_and_starts_the_daemon_at_most_once_in_a_second() {
    let mut poll = AgentPoll::new();
    let gone = || PollNews::NoConnection("connect refused".to_string());
    assert_eq!(poll.next(&gone(), from_millis(5_000)).0, connect(true, 100));
    assert_eq!(poll.next(&gone(), from_millis(5_100)).0, connect(false, 100));
    assert_eq!(poll.next(&gone(), from_millis(6_000) - 1).0, connect(false, 100));
    assert_eq!(poll.next(&gone(), from_millis(6_000)).0, connect(true, 100));
    let lost = PollNews::Events(Err("broken pipe".to_string()));
    assert_eq!(poll.next(&lost, from_millis(6_010)).0, connect(false, 100));
}

#[test]
fn agent_poll_failures_reach_the_island() {
    let mut poll = AgentPoll::new();
    let (step, told) = poll.next(&PollNews::NoClient("no home".to_string()), 0);
    assert_eq!(step, connect(false, 250));
    assert!(matches!(&told[..], [VoiceUiEvent::Error(text)] if text == "HUD event poll failed: no home"));
    let (step, told) = poll.next(&PollNews::Snapshot(Err("closed".to_string())), 0);
    assert_eq!(step, connect(false, 250));
    assert!(matches!(&told[..], [VoiceUiEvent::Error(text)] if text == "HUD event poll failed: closed"));
}

#[test]
fn inbox_messages_are_taken_once_and_old_ones_are_passed_over() {
    let mut poll = InboxPoll::new();
    assert_eq!(poll.next("work", &PollNews::Connected).step, PollStep::Snapshot);
    let next = poll.next("work", &PollNews::Snapshot(Ok(vec![message_event(3)])));
    assert_eq!(next.step, await_after(3));
    assert!(next.messages.is_empty());
    let events = vec![step_event(4), message_event(5), message_event(6)];
    let next = poll.next("work", &PollNews::Events(Ok(events)));
    assert_eq!(next.step, await_after(6));
    assert_eq!(next.messages.len(), 2);
    assert_eq!(next.messages[0].message_id, "m5");
    assert_eq!(next.messages[1].message_id, "m6");
    assert!(next.log.is_none() && next.told.is_none());
}

#[test]
fn inbox_failures_are_logged_once_until_the_connection_is_back() {
    let mut poll = InboxPoll::new();
    let gone = PollNews::NoConnection("refused".to_string());
    let next = poll.next("work", &gone);
    assert_eq!(next.step, connect(false, 150));
    assert_eq!(
        next.log.unwrap(),
        "cua voice inbox poll could not connect to profile socket for work: refused"
    );
    assert!(poll.next("work", &gone).log.is_none());
    assert_eq!(poll.next("work", &PollNews::Connected).step, PollStep::Snapshot);
    assert!(poll.next("work", &gone).log.is_some());
    let next = poll.next("work", &PollNews::Events(Err("lost".to_string())));
    assert_eq!(next.step, connect(false, 100));
    assert_eq!(next.log.unwrap(), "cua voice inbox poll events wait failed: lost");
    let next = poll.next("work", &PollNews::Snapshot(Err("lost".to_string())));
    assert_eq!(next.step, PollStep::Stop);
    assert_eq!(next.log.unwrap(), "cua voice inbox poll events snapshot failed: lost");
    let next = poll.next("work", &PollNews::NoClient("no home".to_string()));
    assert_eq!(next.step, PollStep::Stop);
    assert!(matches!(next.told, Some(VoiceUiEvent::Error(text)) if text == "Invalid cua profile path"));
}

#[test]
fn calls_name_their_method_and_what_goes_with_it() {
    let home = Some("/home/me".to_string());
    let client = CuaClient::new("work", "t".to_string(), &home).unwrap();
    let capture = r#"{"encoding":"png","force_fresh":true,"include_bytes":true,"max_width":1280}"#;
    let call = client.screenshot(true);
    assert_eq!(call.method, "capture.screenshot");
    assert_eq!(printed(call.params), capture);
    let call = client.context(true);
    assert_eq!(call.method, "context.snapshot");
    assert_eq!(printed(call.params), capture);
    assert_eq!(client.observe().method, "observe.desktop");
    assert!(client.observe().params.is_none());
    assert_eq!(client.events().method, "events.snapshot");
    assert_eq!(client.events_after(2).method, "events.after");
    let call = client.events_wait(2, 40);
    assert_eq!(call.method, "events.wait");
    assert_eq!(printed(call.params), r#"{"after_sequence":2,"timeout_ms":40}"#);
    let step = UiStep {
        label: "planning".to_string(),
        source: Some("voice".to_string()),
        task: None,
        tool: None,
        step_index: Some(2),
        step_total: None,
        ttl_ms: Some(5_000),
    };
    let call = client.ui_step("v", &step);
    assert_eq!(call.method, "ui.step");
    assert_eq!(
        printed(call.params),
        r#"{"label":"planning","schema_version":"v","source":"voice","step_index":2,"step_total":null,"task":null,"tool":null,"ttl_ms":5000}"#
    );
    let call = client.ui_reply("v", "Done.", &None, None);
    assert_eq!(call.method, "ui.reply");
    assert_eq!(
        printed(call.params),
        r#"{"schema_version":"v","source":null,"text":"Done.","ttl_ms":null}"#
    );
    let call = client.ui_mode("v", UiMode::Headless, &None);
    assert_eq!(call.method, "ui.mode");
    assert_eq!(printed(call.params), r#"{"mode":"headless","schema_version":"v","source":null}"#);
}

#[test]
fn actions_are_sent_with_the_frame_they_were_planned_on() {
    let home = Some("/home/me".to_string());
    let client = CuaClient::new("work", "t".to_string(), &home).unwrap();
    let action = InputAction::KeyPress { combo: "cmd+n".to_string() };
    let call = client.dispatch(&action).unwrap();
    assert_eq!(call.method, "input.dispatch");
    assert_eq!(printed(call.params), r#"{"combo":"cmd+n","kind":"key_press"}"#);
    let call = client.dispatch_frame("v", json(r#"{"frame_id":9}"#), &action).unwrap();
    assert_eq!(call.method, "input.dispatch_frame");
    assert_eq!(
        printed(call.params),
        r#"{"action":{"combo":"cmd+n","kind":"key_press"},"schema_version":"v","source_frame":{"frame_id":9}}"#
    );
    let clipboard = InputAction::ClipboardWrite { text: "x".to_string() };
    let message = "clipboard actions require explicit clipboard endpoints";
    assert_eq!(client.dispatch(&clipboard).unwrap_err(), message);
    assert_eq!(client.dispatch_frame("v", Json::Null, &clipboard).unwrap_err(), message);
}

#[test]
fn a_second_start_yields_only_to_an_instance_that_answers() {
    assert_eq!(single_instance_claim(true, false, false), InstanceClaim::Claimed);
    assert_eq!(single_instance_claim(false, true, true), InstanceClaim::Yield);
    assert_eq!(single_instance_claim(false, true, false), InstanceClaim::Replace);
    assert_eq!(single_instance_claim(false, false, true), InstanceClaim::Fail);
}

fn transcript(text: &str) -> SttTranscript {
    SttTranscript {
        text: text.to_string(),
        backend: "local".to_string(),
        model: "tiny.en".to_string(),
        generation_id: None,
        audio_ms: Some(900),
        usage: None,
    }
}

#[test]
fn speech_is_told_as_a_command_or_as_missed() {
    let events = speech_events(&Ok(transcript("open notes")));
    assert_eq!(events.len(), 3);
    assert!(matches!(
        &events[0],
        VoiceUiEvent::SttDiagnostic { transcript_class, .. } if transcript_class == "command_candidate"
    ));
    assert!(matches!(events[1], VoiceUiEvent::Accepted));
    assert!(matches!(&events[2], VoiceUiEvent::Transcript(text) if text == "open notes"));
    let events = speech_events(&Ok(transcript("Thank you.")));
    assert_eq!(events.len(), 2);
    assert!(matches!(&events[1], VoiceUiEvent::Error(text) if text == "Didn't catch a command."));
    let events = speech_events(&Err("speech-to-text returned empty text".to_string()));
    assert!(matches!(&events[..], [VoiceUiEvent::Error(text)] if text == "Didn't catch a command."));
    assert!(speech_events(&Err("connection refused".to_string())).is_empty());
}

#[test]
fn short_recordings_fail_the_turn() {
    let source = RecordingSource {
        device_name: "mic".to_string(),
        channels: 1,
        sample_format: "I16".to_string(),
        rms_amplitude_ppm: 7,
    };
    let short = finish_recording(1_000, &[5_i16; 649]).unwrap();
    let (events, result) = recording_finished(&short, &source);
    assert!(matches!(&events[..], [VoiceUiEvent::RecordingStopped]));
    assert_eq!(result.unwrap_err(), "recording was too short to contain a clear command");
    let long = finish_recording(1_000, &[5_i16; 650]).unwrap();
    let (events, result) = recording_finished(&long, &source);
    assert_eq!(events.len(), 2);
    assert!(matches!(
        &events[1],
        VoiceUiEvent::AudioDiagnostic { duration_ms: 650, peak_amplitude: 5, rms_amplitude_ppm: 7, .. }
    ));
    assert!(result.is_ok());
}
