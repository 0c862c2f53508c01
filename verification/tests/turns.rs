use cua_voice::action::InputAction;
use cua_voice::agent_loop::{
    complete_plan, prepare_plan, AgentLoop, PlanDecision, PlanningFailure, Rejection, TurnDecision,
};
use cua_voice::attempt::CompletedAssistantTurn;
use cua_voice::audio::finish_recording;
use cua_voice::budget::AgentLoopBudget;
use cua_voice::json::Json;
use cua_voice::json_text::{parse_json, print_json};
use cua_voice::plan::PlannedTurn;
use cua_voice::speech::SttTranscript;
use cua_voice::trace::{
    audio_trace_json, frame_trace_json, plan_trace_json, trace_config, transcript_trace_json,
    turn_start_json, voice_trace_path, FrameSummary, VoiceTurnTrace,
};
use cua_voice::turn::{
    agent_context_text, audio_diagnostic_event, combined_agent_context, context_unavailable,
    elapsed_ms, heard_speech, metric_event, observe_failed, prefetch_context, ContextOutcome,
    HeardSpeech, RecordingSource, VoiceConfig, VoiceTurnCompletion, DEFAULT_PLANNER_MODEL,
};
use cua_voice::ui_state::VoiceUiEvent;

fn json(text: &str) -> Json {
    parse_json(text).unwrap()
}

fn printed(value: &Json) -> String {
    print_json(value).unwrap()
}

fn transcript(text: &str) -> SttTranscript {
    SttTranscript {
        text: text.to_string(),
        backend: "local".to_string(),
        model: "tiny.en".to_string(),
        generation_id: None,
        audio_ms: Some(1_200),
        usage: Some(json(r#"{"seconds": 1.2, "cost": null}"#)),
    }
}

fn plan(response: &str, action: Option<InputAction>) -> PlannedTurn {
    PlannedTurn {
        response: response.to_string(),
        action,
    }
}

fn aegis(words: &[&str]) -> InputAction {
    InputAction::Aegis {
        args: words.iter().map(|word| word.to_string()).collect(),
        timeout_ms: 15_000,
    }
}

fn paste(text: &str) -> InputAction {
    InputAction::KeyPaste {
        text: text.to_string(),
    }
}

fn bounded(transcript: &str, max_attempts: usize) -> AgentLoop {
    AgentLoop::start(
        transcript.to_string(),
        AgentLoopBudget::Finite { max_attempts },
    )
}

fn reason(state: &AgentLoop) -> String {
    let evidence = state.attempts.last().unwrap().evidence.as_ref().unwrap();
    evidence.get_text("reason").unwrap().clone()
}

#[test]
fn an_aegis_request_stays_with_aegis() {
    let mut state = bounded("Use Aegis to inspect the page", 2);
    let shell = InputAction::ShellExec {
        command: "cat README.md".to_string(),
        timeout_ms: 5_000,
    };
    assert!(matches!(
        state.consider(plan("Reading.", Some(shell.clone()))),
        PlanDecision::Rejected {
            rejection: Rejection::NotAegis
        }
    ));
    assert_eq!(reason(&state), "explicit_aegis_request_requires_aegis_action");
    assert_eq!(state.attempt_index(), 2);
    let PlanDecision::Abort { rejection } = state.consider(plan("Reading.", Some(shell))) else {
        panic!("no attempt is left");
    };
    assert_eq!(
        rejection.abort_message(),
        "planning model selected a non-Aegis action for an explicit Aegis request"
    );
}

#[test]
fn an_aegis_result_needs_aegis_evidence() {
    let mut state = bounded("Use Aegis to inspect the page", 9);
    assert!(matches!(
        state.consider(plan("The verified title is Home.", None)),
        PlanDecision::Rejected {
            rejection: Rejection::AegisFinalWithoutEvidence
        }
    ));
    let turn = CompletedAssistantTurn {
        response: "Reading.".to_string(),
        action: Some(json(r#"{"kind": "aegis", "args": ["page", "text"]}"#)),
        evidence: Some(json(
            r#"{"effect": "confirmed", "evidence": [{"message": "aegis exited 0; stdout=Home; stderr="}]}"#,
        )),
    };
    assert!(matches!(
        state.dispatched(turn),
        TurnDecision::Reobserve { verify: false }
    ));
    assert!(matches!(
        state.consider(plan("The verified title is Home.", None)),
        PlanDecision::Dispatch { .. }
    ));
}

#[test]
fn a_progress_report_is_no_result() {
    let mut state = bounded("Tell me the time", 3);
    assert!(matches!(
        state.consider(plan("Opening Calculator and typing 123", None)),
        PlanDecision::Rejected {
            rejection: Rejection::PendingWithoutAction
        }
    ));
    assert_eq!(reason(&state), "action_null_plan_claimed_pending_work");
}

#[test]
fn long_work_is_not_given_up_without_evidence() {
    let mut state = bounded("Search the web and summarize what you verify.", 3);
    assert!(matches!(
        state.consider(plan("I could not complete the search.", None)),
        PlanDecision::Rejected {
            rejection: Rejection::LongWorkGivenUp
        }
    ));
}

#[test]
fn text_is_entered_once() {
    let mut state = bounded("Write me a note that says hello", 5);
    assert!(matches!(
        state.consider(plan(
            "Opening Notes.",
            Some(InputAction::OpenApp {
                app_name: "Notes".to_string()
            })
        )),
        PlanDecision::Rejected {
            rejection: Rejection::NoText
        }
    ));
    let PlanDecision::Dispatch { plan: kept, .. } =
        state.consider(plan("Writing.", Some(paste("hello"))))
    else {
        panic!("a plan that enters the text is carried out");
    };
    let report = json(r#"{"effect": "unverifiable"}"#);
    assert!(matches!(
        state.dispatched(complete_plan(kept, report)),
        TurnDecision::Reobserve { verify: true }
    ));
    state.reobserved(true, true, true, &Vec::new());
    let noted = state.attempts.last().unwrap().evidence.as_ref().unwrap();
    assert!(noted
        .get("verification_observation")
        .unwrap()
        .get_flag("has_frame"));
    assert!(matches!(
        state.consider(plan("Writing.", Some(paste("hello")))),
        PlanDecision::Rejected {
            rejection: Rejection::TextRepeated
        }
    ));
    assert!(matches!(
        state.consider(plan("The visible note now reads hello.", None)),
        PlanDecision::Dispatch { .. }
    ));
}

#[test]
fn a_failure_that_is_to_be_seen_is_not_hidden() {
    let mut state = bounded(
        "First try to read /tmp/gone.txt and observe the failure. Then recover by creating /tmp/new.txt.",
        3,
    );
    let command = InputAction::ShellExec {
        command: "cat /tmp/gone.txt 2>&1 || true; echo ok > /tmp/new.txt && cat /tmp/new.txt".to_string(),
        timeout_ms: 5_000,
    };
    assert!(matches!(
        state.consider(plan("Running.", Some(command))),
        PlanDecision::Rejected {
            rejection: Rejection::FailureHidden
        }
    ));
}

#[test]
fn a_confirmed_step_of_long_work_is_not_repeated() {
    let mut state = bounded("Research cloud computer agents and summarize them", 9);
    let search = || aegis(&["--mode", "headless", "search", "cloud agents"]);
    let PlanDecision::Dispatch { plan: kept, .. } =
        state.consider(plan("Searching.", Some(search())))
    else {
        panic!("the first search is carried out");
    };
    state.dispatched(complete_plan(kept, json(r#"{"effect": "confirmed"}"#)));
    assert!(matches!(
        state.consider(plan("Searching.", Some(search()))),
        PlanDecision::Rejected {
            rejection: Rejection::StepRepeated
        }
    ));
}

#[test]
fn three_outages_in_a_row_end_the_turn() {
    let mut state = AgentLoop::start("Do it".to_string(), AgentLoopBudget::Unbounded);
    let error = "planner request failed with status 429";
    for _ in 0..2 {
        assert!(matches!(
            state.planning_failed(error, None),
            PlanningFailure::Retry
        ));
    }
    let PlanningFailure::Stop(turn) = state.planning_failed(error, None) else {
        panic!("the third outage ends the turn");
    };
    assert_eq!(
        turn.response,
        "Planner service stayed unavailable while trying to continue the task."
    );
    let finished = state.finish(turn);
    assert_eq!(
        finished.evidence.unwrap().get_text("effect").unwrap(),
        "failed"
    );
}

#[test]
fn errors_of_the_planner_are_told_apart() {
    let mut state = bounded("Do it", 1);
    let PlanningFailure::Stop(turn) =
        state.planning_failed("planning model returned empty content", None)
    else {
        panic!("no attempt is left");
    };
    assert_eq!(
        turn.response,
        "Planner output could not be used before the loop budget ended."
    );
    let bootstrap = plan("Searching.", Some(aegis(&["search", "it"])));
    assert!(matches!(
        state.planning_failed("planning model returned empty content", Some(bootstrap)),
        PlanningFailure::Recovered(_)
    ));
    assert!(matches!(
        state.planning_failed("402 Payment Required: Insufficient credits", None),
        PlanningFailure::Stop(_)
    ));
    assert!(matches!(
        state.planning_failed("unsupported action kind", None),
        PlanningFailure::Fatal
    ));
    let turn = state.credentials_missing("GEMINI_API_KEY", DEFAULT_PLANNER_MODEL);
    assert_eq!(
        printed(&turn.evidence.unwrap()),
        r#"{"attempt_count":1,"effect":"failed","planner_model":"gemini-3.7-flash","reason":"planning_credentials_missing","required":"GEMINI_API_KEY"}"#
    );
}

#[test]
fn a_dispatch_error_is_recorded_and_ends_the_last_attempt() {
    let mut state = bounded("Do it", 2);
    assert!(matches!(
        state.dispatch_failed(None, "no socket"),
        TurnDecision::Reobserve { verify: false }
    ));
    assert_eq!(reason(&state), "dispatch_error");
    assert_eq!(state.observe_label(true, 1), "observe: after dispatch error 1");
    let TurnDecision::Finish(turn) = state.dispatch_failed(None, "no socket") else {
        panic!("no attempt is left");
    };
    assert_eq!(
        turn.response,
        "I hit a dispatch error before completing the full task."
    );
    assert_eq!(state.attempts[1].attempt_index, 2);
}

#[test]
fn a_plain_turn_ends_at_once() {
    let mut state = AgentLoop::start("Say hello".to_string(), AgentLoopBudget::Unbounded);
    assert_eq!(state.planning_label(), "planning: attempt 1/n");
    let PlanDecision::Dispatch { plan: kept, action } = state.consider(plan("Hello.", None)) else {
        panic!("a reply is given");
    };
    assert!(action.is_none());
    let TurnDecision::Finish(turn) = state.dispatched(complete_plan(kept, Json::Null)) else {
        panic!("nothing is left to do");
    };
    assert_eq!(state.attempt_count(&turn), 1);
    let finished = state.finish(turn);
    let completion = VoiceTurnCompletion::from_completed(&finished);
    assert_eq!(completion.reply, "Hello.");
    assert!(!completion.action);
}

#[test]
fn a_stalling_plan_makes_room_for_one_that_starts() {
    let transcript = "Open Safari and search for the official documentation";
    let stalls = plan(
        "Opening Safari.",
        Some(InputAction::OpenApp {
            app_name: "Safari".to_string(),
        }),
    );
    let start = plan("Searching.", Some(aegis(&["search", "docs"])));
    let prepared = prepare_plan(transcript, stalls, Some(start));
    assert!(prepared.bootstrapped);
    assert_eq!(prepared.plan.response, "Searching.");
    assert_eq!(prepared.removed, 0);
    let state = AgentLoop::start(transcript.to_string(), AgentLoopBudget::Unbounded);
    let start = plan("Searching.", Some(aegis(&["search", "docs"])));
    assert!(state.begin(Some(start)).is_some());
    assert!(state.begin(Some(plan("Typing.", Some(paste("docs"))))).is_none());
    assert!(state.begin(None).is_none());
}

#[test]
fn speech_is_heard_missed_refused_or_fails() {
    assert_eq!(
        heard_speech(&Err("speech-to-text returned empty text".to_string())),
        HeardSpeech::Missed {
            shown: "Didn't catch a command.".to_string()
        }
    );
    assert_eq!(
        heard_speech(&Err("no route to host".to_string())),
        HeardSpeech::Failed {
            error: "no route to host".to_string()
        }
    );
    assert_eq!(
        heard_speech(&Ok(transcript("you"))),
        HeardSpeech::Refused {
            class: "missed_speech",
            shown: "Didn't catch a command.".to_string(),
            error: "speech-to-text did not produce a command: model=tiny.en generation_id=unknown class=missed_speech".to_string(),
        }
    );
    assert_eq!(
        heard_speech(&Ok(transcript("open  notes"))),
        HeardSpeech::Command {
            text: "open  notes".to_string(),
            label: "transcript: open notes".to_string(),
        }
    );
}

#[test]
fn the_planner_is_told_what_is_not_known() {
    assert_eq!(
        combined_agent_context("a", "b", "c", &Vec::new(), &Vec::new()),
        "a\nb\nc"
    );
    assert_eq!(
        combined_agent_context("a", "b", "c", &vec!["x \"y\"".to_string()], &Vec::new()),
        "a\nb\nc\nRuntime context errors visible to the agent:\ndesktop=[\"x \\\"y\\\"\"]\nagent_context=[]"
    );
    assert_eq!(
        agent_context_text("a", "b", "c", &Some(("d".to_string(), "e".to_string()))),
        "a\nb\nc\nRuntime context errors visible to the agent:\ndesktop=d\nagent_context=e"
    );
    let known = context_unavailable("no ctx", Err("locked".to_string()));
    assert_eq!(known.chat, "Recent chat: unavailable. error=locked");
    assert_eq!(known.ctx, "Context: unavailable.\nctx_error: no ctx");
    assert_eq!(known.errors, vec!["no ctx"]);
    let known = context_unavailable("no ctx", Ok("Recent chat: none.".to_string()));
    assert_eq!(known.chat, "Recent chat: none.");
}

#[test]
fn a_look_at_the_desktop_is_repeated_without_its_frame() {
    let step = prefetch_context(&ContextOutcome::TimedOut, 2_500);
    assert!(step.observe && !step.keep_session);
    assert_eq!(
        step.error.as_deref(),
        Some("context snapshot timed out after 2500ms")
    );
    let step = prefetch_context(&ContextOutcome::Failed("busy".to_string()), 2_500);
    assert!(!step.observe && step.keep_session);
    assert_eq!(step.error.as_deref(), Some("context snapshot failed: busy"));
    let step = prefetch_context(&ContextOutcome::NoSession("gone".to_string()), 2_500);
    assert!(!step.observe && !step.keep_session);
    assert_eq!(step.error.as_deref(), Some("session acquire failed: gone"));
    let step = prefetch_context(&ContextOutcome::Seen, 2_500);
    assert!(step.keep_session && step.error.is_none());
    assert_eq!(observe_failed("x"), "fallback desktop observe failed: x");
}

#[test]
fn diagnostics_carry_what_was_measured() {
    let audio = finish_recording(1_000, &[0, 50, -100, 25]).unwrap();
    let source = RecordingSource {
        device_name: "Mic".to_string(),
        channels: 2,
        sample_format: "I16".to_string(),
        rms_amplitude_ppm: 1_750,
    };
    assert!(matches!(
        audio_diagnostic_event(&audio, &source),
        VoiceUiEvent::AudioDiagnostic {
            channels: 2,
            sample_rate: 1_000,
            duration_ms: 4,
            peak_amplitude: 100,
            rms_amplitude_ppm: 1_750,
            wav_bytes: 52,
            ..
        }
    ));
    assert_eq!(
        printed(&audio_trace_json(&audio, &source, Json::Decimal("0.5".to_string()))),
        r#"{"channels":2,"device_name":"Mic","duration_ms":4,"peak_amplitude":100,"rms_amplitude":0.5,"sample_format":"I16","sample_rate":1000,"wav_bytes":52}"#
    );
    assert!(matches!(
        metric_event("plan_ms", u128::MAX),
        VoiceUiEvent::Metric { name, ms: u64::MAX } if name == "plan_ms"
    ));
    assert_eq!(elapsed_ms(17), 17);
}

#[test]
fn the_trace_says_what_happened() {
    let config = VoiceConfig {
        debug_trace: true,
        ..VoiceConfig::default()
    };
    let path = voice_trace_path(&None, &Some("/p/trace.jsonl".to_string()));
    assert_eq!(
        voice_trace_path(&Some("/set".to_string()), &path).as_deref(),
        Some("/set")
    );
    let trace = VoiceTurnTrace::new(&config, path, 12, 34, 5);
    assert_eq!(trace.turn_id, "12-34-5");
    assert_eq!(
        trace.artifact_path(&Some("/p".to_string()), "input.wav").as_deref(),
        Some("/p/voice-turn-artifacts/12-34-5/input.wav")
    );
    let off = VoiceTurnTrace::new(&VoiceConfig::default(), Some("/p".to_string()), 1, 2, 3);
    assert!(off.path.is_none());
    assert!(off.artifact_path(&Some("/p".to_string()), "input.wav").is_none());
    assert_eq!(
        printed(&trace_config(&config)),
        r#"{"planner_model":"gemini-3.7-flash","profile":"default","stt_backend":"local","stt_model":"tiny.en"}"#
    );
    assert_eq!(
        turn_start_json("text", &config).get_text("mode").unwrap(),
        "text"
    );
    assert_eq!(
        printed(&transcript_trace_json(&transcript("open notes"), 7)),
        r#"{"backend":"local","class":"command_candidate","elapsed_ms":7,"generation_id":null,"model":"tiny.en","text":"open notes","usage":{"cost":null,"seconds":1.2}}"#
    );
    assert_eq!(
        printed(&plan_trace_json("m", 3, &plan("Pausing.", Some(InputAction::Pause)))),
        r#"{"action":{"kind":"pause"},"elapsed_ms":3,"model":"m","response":"Pausing."}"#
    );
    let frame = FrameSummary {
        frame_id: 7,
        display_id: "main".to_string(),
        timestamp_wall_ms: 8,
        width: 10,
        height: 20,
        display_width: 30,
        display_height: 40,
        encoding: "png".to_string(),
        byte_len: 50,
        sha256: "ab".to_string(),
        has_bytes: true,
    };
    assert_eq!(
        printed(&frame_trace_json(&frame)),
        r#"{"byte_len":50,"display_height":40,"display_id":"main","display_width":30,"encoding":"png","frame_id":7,"has_bytes":true,"height":20,"sha256":"ab","timestamp_wall_ms":8,"width":10}"#
    );
}
