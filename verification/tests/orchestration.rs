use cua_voice::action::InputAction;
use cua_voice::agent_loop::planning_error_can_use_bootstrap_recovery;
use cua_voice::attempt::{
    action_null_finishes_after_prior_attempts, action_null_plan_claims_pending_work,
    action_null_stops_long_range_without_evidence, action_repeats_confirmed_attempt,
    action_repeats_text_entry_attempt, attach_loop_evidence,
    consecutive_planning_infrastructure_errors, failure_boundary_plan_collapses_recovery,
    inferred_final_effect, loop_attempt_count, observed_turn_effect,
    prior_attempts_include_aegis_evidence, prior_attempts_include_aegis_zero_match,
    prior_attempts_support_explicit_aegis_final, prior_attempts_support_verified_final, turn_effect,
    CompletedAssistantTurn, PlanAttemptContext,
};
use cua_voice::budget::{agent_loop_budget, AgentLoopBudget};
use cua_voice::evidence::{
    aegis_readback_missing_evidence, shell_expected_stdout_missing_evidence,
    shell_readback_missing_evidence,
};
use cua_voice::failure::{
    api_key_for_stt_backend_from, planning_error_is_empty_content,
    planning_error_is_invalid_action_json, planning_error_is_provider_account_failure,
    planning_error_is_retryable_infrastructure, user_visible_turn_error, validate_recorded_audio,
    validate_stt_transcript,
};
use cua_voice::goal;
use cua_voice::goal::{
    action_is_user_text_fulfillment, aegis_readback_missing_for_goal, apply_verified_readback_reply,
    mark_long_range_budget_exhausted_if_needed, open_only_incomplete_for_goal,
    shell_expected_stdout_missing_for_goal, shell_readback_missing_for_goal,
};
use cua_voice::json::Json;
use cua_voice::json_text::{parse_json, print_json};
use cua_voice::plan::{
    action_satisfies_text_entry_request, dedupe_redundant_sequence_actions,
    input_action_is_open_only_setup, input_action_uses_only_aegis_backend, profile_settings,
    repair_new_note_text_entry_plan, stamp_action,
};
use cua_voice::progress::{
    planning_credentials_missing_message_with_attempts,
    planning_provider_account_failure_message_with_attempts, voice_step_label,
    VOICE_STEP_FLUSH_TIMEOUT_MS, VOICE_STEP_LABEL_MAX, VOICE_STEP_TIMEOUT_MS,
};
use cua_voice::response::{
    final_response_claims_verified_result, final_response_reports_prior_failure,
    planner_response_claims_pending_work,
};
use cua_voice::speech::{SttTranscript, DEFAULT_STT_MODEL};
use cua_voice::step::{
    action_is_browser_research_setup, action_is_observation_only, action_is_text_entry,
    action_requires_visible_reobserve_before_finish, json_action_uses_aegis,
};
use cua_voice::time::from_millis;
use cua_voice::trace::VoiceTurnTrace;
use cua_voice::transcript::{
    expected_final_shell_stdout_value, transcript_class, transcript_explicitly_requests_aegis,
    transcript_requests_long_range_work, transcript_requests_shell_readback,
    transcript_requests_text_entry,
};
use cua_voice::turn::{
    combined_agent_context, context_join_failed, context_prefetch_timeout, stt_diagnostic_event,
    user_visible_reply_text, VoiceConfig, DEFAULT_CONTEXT_PREFETCH_TIMEOUT_MS,
    DEFAULT_PLANNER_MODEL,
};
use cua_voice::ui_state::VoiceUiEvent;

fn json(text: &str) -> Json {
    parse_json(text).unwrap()
}

fn text_at<'a>(value: &'a Json, key: &str) -> &'a str {
    value.get_text(key).unwrap()
}

fn number_at(value: &Json, key: &str) -> u64 {
    value.get_number(key).unwrap()
}

fn item_at<'a>(value: &'a Json, key: &str, index: usize) -> &'a Json {
    &value.get_array(key).unwrap()[index]
}

fn should_replan_after_effect(
    effect: Option<&str>,
    attempt_index: usize,
    budget: AgentLoopBudget,
) -> bool {
    goal::should_replan_after_effect(&effect.map(str::to_string), attempt_index, budget)
}

fn should_replan_after_turn(
    transcript: &str,
    turn: &CompletedAssistantTurn,
    effect: Option<&str>,
    attempt_index: usize,
    budget: AgentLoopBudget,
) -> bool {
    goal::should_replan_after_turn(
        transcript,
        turn,
        &effect.map(str::to_string),
        attempt_index,
        budget,
    )
}

fn should_continue_long_range_after_verified_action(
    transcript: &str,
    turn: &CompletedAssistantTurn,
    effect: Option<&str>,
    attempt_index: usize,
    budget: AgentLoopBudget,
) -> bool {
    goal::should_continue_long_range_after_verified_action(
        transcript,
        turn,
        &effect.map(str::to_string),
        attempt_index,
        budget,
    )
}

#[test]
fn voice_step_label_compacts_and_bounds_turn_text() {
    assert_eq!(
        voice_step_label("transcript", " click   the center target "),
        "transcript: click the center target"
    );

    let label = voice_step_label("reply", &"done ".repeat(40));
    assert!(label.chars().count() <= VOICE_STEP_LABEL_MAX);
    assert!(label.ends_with("..."));
}

#[test]
fn spelling_of_a_transcript_leaves_its_class() {
    for (plain, class) in [
        ("thank you", "missed_speech"),
        ("subtitles by them", "missed_speech"),
        ("open the notes", "command_candidate"),
        ("", "empty"),
    ] {
        let capitals = plain.to_ascii_uppercase();
        let outer = format!(" \t{plain}\n\u{a0}");
        let wider = plain.replace(' ', " \n\u{3000} ");
        for spelled in [plain, &capitals, &outer, &wider] {
            assert_eq!(transcript_class(spelled), class);
        }
        for mark in ['.', '!', '?', '"'] {
            assert_eq!(transcript_class(&format!("{plain}{mark}")), class);
            assert_eq!(transcript_class(&format!("{plain}{mark}{mark}")), class);
        }
    }
    assert_eq!(transcript_class("thanks !"), "missed_speech");
    assert_eq!(transcript_class("thanks. !"), "command_candidate");
}

#[test]
fn transcript_class_identifies_command_candidates_and_hallucinations() {
    assert_eq!(transcript_class("you"), "missed_speech");
    assert_eq!(transcript_class("Thank you."), "missed_speech");
    assert_eq!(
        transcript_class("Thank you for joining us today."),
        "missed_speech"
    );
    assert_eq!(
        transcript_class("You're welcome! Let me know if you need anything."),
        "missed_speech"
    );
    assert_eq!(transcript_class("settings"), "command_candidate");
    assert_eq!(
        transcript_class("click the center target"),
        "command_candidate"
    );
}

#[test]
fn stt_validation_classifies_you_as_missed_speech() {
    let transcript = SttTranscript {
        text: "You.".to_string(),
        backend: "openrouter".to_string(),
        model: DEFAULT_STT_MODEL.to_string(),
        generation_id: Some("gen_test".to_string()),
        audio_ms: None,
        usage: None,
    };
    let error = validate_stt_transcript(&transcript).unwrap_err();
    let message = error.clone();

    assert!(message.contains("model=tiny.en"));
    assert!(message.contains("generation_id=gen_test"));
    assert!(message.contains("class=missed_speech"));
    assert!(!message.contains("You"));
    assert_eq!(user_visible_turn_error(&error), "Didn't catch a command.");
}

#[test]
fn user_visible_error_names_planner_parse_failure() {
    let error = "parse plan JSON: expected value";

    assert_eq!(
        user_visible_turn_error(&error),
        "Planner returned invalid action JSON."
    );
}

#[test]
fn user_visible_error_names_empty_planner_response() {
    let error = "planning model returned empty content";

    assert_eq!(
        user_visible_turn_error(&error),
        "Planner returned empty content."
    );
    assert!(planning_error_is_empty_content(&error));
}

#[test]
fn planner_parse_failures_are_recoverable_for_deterministic_browser_bootstrap() {
    let error = "model output was not valid action JSON: parse action: invalid type: null";
    let parse_plan = "parse plan JSON: expected value";

    assert!(planning_error_is_invalid_action_json(&error));
    assert!(planning_error_is_invalid_action_json(&parse_plan));
}

#[test]
fn planner_parse_recovery_does_not_reset_after_loop_progress() {
    let attempts = vec![PlanAttemptContext {
        attempt_index: 1,
        response: "Found relevant page text.".to_string(),
        action: Some(json(r#"{
            "kind": "aegis",
            "args": ["--mode", "headless", "page", "find", "foreign key constraints"]
        }"#)),
        effect: Some("confirmed".to_string()),
        evidence: Some(json(r#"{"effect": "confirmed"}"#)),
    }];

    assert!(planning_error_can_use_bootstrap_recovery(true, &Vec::new()));
    assert!(!planning_error_can_use_bootstrap_recovery(true, &attempts));
    assert!(!planning_error_can_use_bootstrap_recovery(false, &Vec::new()));
}

#[test]
fn planner_provider_timeouts_are_retryable_loop_infrastructure_errors() {
    let timeout = "decode planning response: error decoding response body: request or response body error: operation timed out";
    let rate_limit = "planner request failed with status 429";
    let tls_transport = "send planning request: error sending request for url (https://openrouter.ai/api/v1/chat/completions): client error (SendRequest): connection error: received fatal alert: BadRecordMac";
    let schema = "unsupported action kind";
    let payment_required = r#"planning failed with 402 Payment Required: {"error":{"message":"Insufficient credits"}}"#;

    assert!(planning_error_is_retryable_infrastructure(&timeout));
    assert!(planning_error_is_retryable_infrastructure(&rate_limit));
    assert!(planning_error_is_retryable_infrastructure(&tls_transport));
    assert!(!planning_error_is_retryable_infrastructure(&schema));
    assert!(!planning_error_is_retryable_infrastructure(
        &payment_required
    ));
    assert!(planning_error_is_provider_account_failure(
        &payment_required
    ));
    assert_eq!(
        planning_provider_account_failure_message_with_attempts(&payment_required, &Vec::new()),
        "Planner provider stopped the task: insufficient provider credits."
    );
    assert_eq!(
        planning_credentials_missing_message_with_attempts(
            "GEMINI_API_KEY or GOOGLE_API_KEY",
            "gemini-3.7-flash",
            &Vec::new()
        ),
        "GEMINI_API_KEY or GOOGLE_API_KEY is required for planner model gemini-3.7-flash."
    );
    let attempts = vec![PlanAttemptContext {
        attempt_index: 1,
        response: "Searching with Aegis.".to_string(),
        action: Some(json(r#"{
            "kind": "aegis",
            "args": [
                "--server-addr",
                "127.0.0.1:27682",
                "--profile",
                "cua-qor3787",
                "--mode",
                "headless",
                "search",
                "the official SQLite foreign key documentation"
            ],
            "timeout_ms": 15000
        }"#)),
        effect: Some("confirmed".to_string()),
        evidence: Some(json(r#"{"effect": "confirmed"}"#)),
    }];
    assert_eq!(
        planning_provider_account_failure_message_with_attempts(&payment_required, &attempts),
        "Planner provider stopped the task after 1 completed attempt; last progress was using Aegis `search the official SQLite foreign key documentation`: insufficient provider credits."
    );
    assert_eq!(
        planning_credentials_missing_message_with_attempts(
            "GEMINI_API_KEY or GOOGLE_API_KEY",
            "gemini-3.7-flash",
            &attempts
        ),
        "GEMINI_API_KEY or GOOGLE_API_KEY is required for planner model gemini-3.7-flash; stopped after 1 completed attempt; last progress was using Aegis `search the official SQLite foreign key documentation`."
    );
    let sequence_attempts = vec![PlanAttemptContext {
        attempt_index: 1,
        response: "Opening and searching.".to_string(),
        action: Some(json(r#"{
            "kind": "sequence",
            "actions": [
                {"kind": "open_app", "app_name": "Safari"},
                {
                    "kind": "aegis",
                    "args": [
                        "--server-addr",
                        "127.0.0.1:27682",
                        "--profile",
                        "cua-qor3787",
                        "--mode",
                        "headless",
                        "search",
                        "SQLite foreign key documentation"
                    ],
                    "timeout_ms": 15000
                }
            ]
        }"#)),
        effect: Some("confirmed".to_string()),
        evidence: Some(json(r#"{"effect": "confirmed"}"#)),
    }];
    assert_eq!(
        planning_provider_account_failure_message_with_attempts(
            &payment_required,
            &sequence_attempts
        ),
        "Planner provider stopped the task after 1 completed attempt; last progress was running a 2-action sequence ending with using Aegis `search SQLite foreign key documentation`: insufficient provider credits."
    );
}

#[test]
fn planner_provider_context_limit_is_terminal_account_failure() {
    let error = "planning failed with 402 Payment Required: Prompt tokens limit exceeded: 6092 > 5820. limit_source=openrouter_credits";

    assert!(planning_error_is_provider_account_failure(&error));
    assert!(!planning_error_is_retryable_infrastructure(&error));
    assert_eq!(
        planning_provider_account_failure_message_with_attempts(&error, &Vec::new()),
        "Planner provider stopped the task: the provider prompt-token limit was exceeded."
    );
}

#[test]
fn consecutive_planning_infrastructure_errors_count_only_tail() {
    let attempts = vec![
        PlanAttemptContext {
            attempt_index: 1,
            response: "Navigation worked.".to_string(),
            action: Some(json(r#"{
                "kind": "aegis",
                "args": ["--mode", "headless", "navigate", "https://example.com"]
            }"#)),
            effect: Some("confirmed".to_string()),
            evidence: Some(json(r#"{"effect": "confirmed"}"#)),
        },
        PlanAttemptContext {
            attempt_index: 2,
            response: "Planner output could not be used.".to_string(),
            action: None,
            effect: Some("failed".to_string()),
            evidence: Some(json(r#"{
                "effect": "failed",
                "reason": "planning_infrastructure_error"
            }"#)),
        },
        PlanAttemptContext {
            attempt_index: 3,
            response: "Planner output could not be used.".to_string(),
            action: None,
            effect: Some("failed".to_string()),
            evidence: Some(json(r#"{
                "effect": "failed",
                "reason": "planning_infrastructure_error"
            }"#)),
        },
    ];

    assert_eq!(consecutive_planning_infrastructure_errors(&attempts), 2);

    let mut interrupted = attempts;
    interrupted.push(PlanAttemptContext {
        attempt_index: 4,
        response: "Action refused.".to_string(),
        action: Some(json(r#"{"kind": "shell_exec", "command": "false"}"#)),
        effect: Some("refused".to_string()),
        evidence: Some(json(r#"{"effect": "refused"}"#)),
    });

    assert_eq!(consecutive_planning_infrastructure_errors(&interrupted), 0);
}

#[test]
fn user_visible_error_hides_local_stt_tracebacks() {
    let error = "local speech-to-text fallback after primary failure: No such file or directory: 'ffmpeg'";

    assert_eq!(
        user_visible_turn_error(&error),
        "Local speech-to-text needs attention."
    );
}

#[test]
fn local_stt_does_not_require_openrouter_key() {
    assert_eq!(
        api_key_for_stt_backend_from("local", None).unwrap(),
        None
    );
    assert_eq!(
        api_key_for_stt_backend_from("local", Some("test-key".to_string())).unwrap(),
        Some("test-key".to_string())
    );
}

#[test]
fn openrouter_stt_requires_openrouter_key() {
    let error = api_key_for_stt_backend_from("openrouter", None).unwrap_err();

    assert!(error.clone().contains("OpenRouter speech-to-text"));
    assert_eq!(
        api_key_for_stt_backend_from("openrouter", Some("test-key".to_string())).unwrap(),
        Some("test-key".to_string())
    );
}

#[test]
fn voice_step_flush_does_not_hold_turn_completion() {
    assert!(VOICE_STEP_FLUSH_TIMEOUT_MS <= 150);
}

#[test]
fn voice_step_request_timeout_stays_latency_oriented() {
    assert!(VOICE_STEP_TIMEOUT_MS <= 150);
}

#[test]
fn default_planner_model_uses_latest_gemini_flash() {
    assert_eq!(DEFAULT_PLANNER_MODEL, "gemini-3.7-flash");
}

#[test]
fn agent_loop_replans_only_for_recoverable_effects_inside_budget() {
    for effect in [
        "partial",
        "unverifiable",
        "suspected_noop",
        "refused",
        "failed",
    ] {
        assert!(should_replan_after_effect(
            Some(effect),
            1,
            AgentLoopBudget::Finite { max_attempts: 3 }
        ));
    }
    for effect in ["confirmed", "sent", "unknown"] {
        assert!(!should_replan_after_effect(
            Some(effect),
            1,
            AgentLoopBudget::Finite { max_attempts: 3 }
        ));
    }
    assert!(!should_replan_after_effect(
        None,
        1,
        AgentLoopBudget::Finite { max_attempts: 3 }
    ));
    assert!(!should_replan_after_effect(
        Some("suspected_noop"),
        3,
        AgentLoopBudget::Finite { max_attempts: 3 }
    ));
    assert!(should_replan_after_effect(
        Some("suspected_noop"),
        30,
        AgentLoopBudget::Unbounded
    ));
}

#[test]
fn planner_context_includes_chat_ctx_scratchpads_and_runtime_errors() {
    let context = combined_agent_context(
        "Recent chat:\nuser: previous request",
        "Context:\nselected_memory: prefer Aegis",
        "Scratchpads:\nactive-goal",
        &vec!["context snapshot failed: timeout".to_string()],
        &vec!["ctx exited 2: missing index".to_string()],
    );

    assert!(context.contains("Recent chat:"));
    assert!(context.contains("selected_memory"));
    assert!(context.contains("Scratchpads:"));
    assert!(context.contains("Runtime context errors visible to the agent"));
    assert!(context.contains("context snapshot failed"));
    assert!(context.contains("ctx exited 2"));
}

#[test]
fn agent_loop_replans_after_text_entry_so_fresh_observation_can_be_verified() {
    let turn = CompletedAssistantTurn {
        response: "Writing the note.".to_string(),
        action: Some(json(r#"{
            "kind": "sequence",
            "actions": [
                {"kind": "open_app", "app_name": "Notes"},
                {"kind": "key_press", "combo": "cmd+n"},
                {"kind": "key_paste", "text": "Once upon a time"}
            ]
        }"#)),
        evidence: Some(json(r#"{"effect": "unverifiable"}"#)),
    };

    for effect in ["partial", "unverifiable", "suspected_noop", "refused"] {
        assert!(should_replan_after_turn(
            "Write me a note",
            &turn,
            Some(effect),
            1,
            AgentLoopBudget::Finite { max_attempts: 3 }
        ));
    }
}

#[test]
fn agent_loop_rejects_repeated_text_entry_after_reobserve() {
    let action = json(r#"{
        "kind": "sequence",
        "actions": [
            {"kind": "open_app", "app_name": "Notes"},
            {"kind": "key_press", "combo": "cmd+n"},
            {"kind": "key_paste", "text": "Once upon a time"}
        ]
    }"#);
    let attempts = vec![PlanAttemptContext {
        attempt_index: 1,
        response: "Writing the note.".to_string(),
        action: Some(action.clone()),
        effect: Some("unverifiable".to_string()),
        evidence: Some(json(r#"{"effect": "unverifiable"}"#)),
    }];

    assert!(action_repeats_text_entry_attempt(&attempts, &action));
    assert!(!action_repeats_text_entry_attempt(
        &attempts,
        &json(r#"{"kind": "key_paste", "text": "Different text"}"#)
    ));
}

#[test]
fn agent_loop_still_replans_non_text_recoverable_effects() {
    let turn = CompletedAssistantTurn {
        response: "Opening Notes.".to_string(),
        action: Some(json(r#"{"kind": "open_app", "app_name": "Notes"}"#)),
        evidence: Some(json(r#"{"effect": "suspected_noop"}"#)),
    };

    assert!(should_replan_after_turn(
        "Open Notes",
        &turn,
        Some("suspected_noop"),
        1,
        AgentLoopBudget::Finite { max_attempts: 3 }
    ));
}

#[test]
fn only_visible_text_entry_actions_require_reobserve_before_final_reply() {
    for action in [
        json(r#"{"kind": "key_type", "text": "hello"}"#),
        json(r#"{"kind": "key_paste", "text": "hello"}"#),
        json(r#"{"kind": "sequence", "actions": [
            {"kind": "open_app", "app_name": "Notes"},
            {"kind": "key_paste", "text": "hello"}
        ]}"#),
    ] {
        assert!(action_requires_visible_reobserve_before_finish(&action));
    }
    for action in [
        json(r#"{"kind": "sequence", "actions": []}"#),
        json(r#"{"kind": "shell_exec", "command": "pwd"}"#),
        json(r#"{"kind": "aegis", "args": ["--help"]}"#),
        json(r#"{"kind": "ctx", "args": ["query", "default", "cua"]}"#),
        json(r#"{"kind": "open_app", "app_name": "Calculator"}"#),
        json(r#"{"kind": "mouse_click", "x": 1, "y": 2}"#),
    ] {
        assert!(!action_requires_visible_reobserve_before_finish(&action));
    }
}

#[test]
fn text_entry_actions_are_detected_inside_sequences() {
    assert!(action_is_text_entry(
        &json(r#"{"kind": "key_paste", "text": "hello"}"#)
    ));
    assert!(action_is_text_entry(&json(r#"{
        "kind": "sequence",
        "actions": [
            {"kind": "open_app", "app_name": "Notes"},
            {"kind": "key_press", "combo": "cmd+n"},
            {"kind": "key_paste", "text": "hello"}
        ]
    }"#)));
    assert!(!action_is_text_entry(&json(r#"{
        "kind": "sequence",
        "actions": [
            {"kind": "open_app", "app_name": "Notes"},
            {"kind": "key_press", "combo": "cmd+n"}
        ]
    }"#)));
}

#[test]
fn duplicate_side_effects_are_removed_inside_sequences() {
    let mut action = Some(InputAction::Sequence {
        actions: vec![
            InputAction::OpenApp {
                app_name: "Notes".to_string(),
            },
            InputAction::OpenApp {
                app_name: "Notes".to_string(),
            },
            InputAction::KeyPress {
                combo: "cmd+n".to_string(),
            },
            InputAction::KeyPress {
                combo: "cmd+n".to_string(),
            },
            InputAction::KeyPaste {
                text: "Once upon a time".to_string(),
            },
            InputAction::KeyPaste {
                text: "Once upon a time".to_string(),
            },
        ],
        inter_action_delay_ms: 120,
    });

    let report = dedupe_redundant_sequence_actions(&mut action);

    assert_eq!(report.removed, 2);
    assert_eq!(dedupe_redundant_sequence_actions(&mut action).removed, 0);
    let Some(InputAction::Sequence { actions, .. }) = action else {
        panic!("expected sequence");
    };
    assert_eq!(actions.len(), 4);
    assert_eq!(
        actions
            .iter()
            .filter(|action| matches!(action, InputAction::KeyPress { .. }))
            .count(),
        2
    );
    assert_eq!(
        actions
            .iter()
            .filter(|action| matches!(action, InputAction::KeyPaste { .. }))
            .count(),
        1
    );
}

#[test]
fn text_entry_requests_reject_open_only_plans() {
    assert!(transcript_requests_text_entry(
        "Open Notes and write me a note that says hello"
    ));
    assert!(transcript_requests_text_entry(
        "Make a new note that says hello"
    ));
    assert!(transcript_requests_text_entry(
        "Leave a message that says hello"
    ));
    assert!(!transcript_requests_text_entry(
        "Research the web and verify the page content"
    ));
    assert!(!transcript_requests_text_entry(
        "Read the page and summarize what it says"
    ));
    assert!(!transcript_requests_text_entry(
        "Use Aegis in headless mode to navigate to https://example.com, inspect page actions, inspect page markdown, and report the verified page type and title"
    ));
    assert!(!transcript_requests_text_entry(
        "Report the verified file type and page type"
    ));
    assert!(transcript_requests_text_entry("Type hello into Notes"));
    assert!(transcript_requests_text_entry(
        "Open Notes and type hello there"
    ));
    assert!(!transcript_requests_text_entry("Read the story aloud"));
    assert!(!transcript_requests_text_entry("Find the map marker"));
    assert!(!transcript_requests_text_entry("Open Notes"));
    assert!(!transcript_requests_text_entry("Open Messages"));
    assert!(!action_satisfies_text_entry_request(
        &InputAction::OpenApp {
            app_name: "Notes".to_string(),
        }
    ));
    assert!(action_satisfies_text_entry_request(
        &InputAction::Sequence {
            actions: vec![
                InputAction::OpenApp {
                    app_name: "Notes".to_string(),
                },
                InputAction::KeyPaste {
                    text: "hello".to_string(),
                },
            ],
            inter_action_delay_ms: 120,
        }
    ));
}

#[test]
fn long_range_requests_replan_after_open_only_setup() {
    let turn = CompletedAssistantTurn {
        response: "Opening Safari.".to_string(),
        action: Some(json(r#"{"kind": "open_app", "app_name": "Safari"}"#)),
        evidence: Some(json(r#"{"effect": "confirmed"}"#)),
    };

    assert!(open_only_incomplete_for_goal(
        "Open Safari and do some research while I watch",
        &turn
    ));
    assert!(should_replan_after_turn(
        "Open Safari and do some research while I watch",
        &turn,
        Some("partial"),
        1,
        AgentLoopBudget::Finite { max_attempts: 3 }
    ));
    assert!(!open_only_incomplete_for_goal("Open Safari", &turn));
}

#[test]
fn shell_readback_requests_reject_empty_stdout_confirmations() {
    let transcript = "Use the local shell to create input.txt, transform it into output.txt, then read output.txt back and report the verified contents.";
    let empty_stdout_turn = CompletedAssistantTurn {
        response: "Creating input.txt, transforming output.txt, and reading it back."
            .to_string(),
        action: Some(json(r#"{
            "kind": "shell_exec",
            "command": "mkdir -p /tmp/example",
            "timeout_ms": 5000
        }"#)),
        evidence: Some(json(r#"{
            "effect": "confirmed",
            "evidence": [
                {"kind": "value_readback", "message": "shell exited 0; stdout=; stderr="}
            ]
        }"#)),
    };
    let stdout_turn = CompletedAssistantTurn {
        response: "Reading output.txt.".to_string(),
        action: Some(json(r#"{
            "kind": "shell_exec",
            "command": "cat /tmp/example/output.txt",
            "timeout_ms": 5000
        }"#)),
        evidence: Some(json(r#"{
            "effect": "confirmed",
            "evidence": [
                {"kind": "value_readback", "message": "shell exited 0; stdout=ALPHA,BETA,GAMMA; stderr="}
            ]
        }"#)),
    };

    assert!(transcript_requests_shell_readback(transcript));
    assert!(shell_readback_missing_for_goal(
        transcript,
        &empty_stdout_turn
    ));
    assert!(!shell_readback_missing_for_goal(transcript, &stdout_turn));
    assert_eq!(
        text_at(&shell_readback_missing_evidence(empty_stdout_turn.evidence), "reason"),
        "shell_readback_missing_for_verified_output_goal"
    );
}

#[test]
fn shell_readback_with_stdout_finishes_without_long_range_repair_loop() {
    let transcript = "Using local shell only, create answer.txt containing exactly fastpath evidence 314159, read the file back to stdout, and report the exact stdout.";
    let mut turn = CompletedAssistantTurn {
        response: "Creating answer.txt and reading it back via shell.".to_string(),
        action: Some(json(r#"{
            "kind": "shell_exec",
            "command": "mkdir -p /tmp/example && echo 'fastpath evidence 314159' > /tmp/example/answer.txt && cat /tmp/example/answer.txt",
            "timeout_ms": 5000
        }"#)),
        evidence: Some(json(r#"{
            "effect": "confirmed",
            "evidence": [
                {"kind": "value_readback", "message": "shell exited 0; stdout=fastpath evidence 314159; stderr="}
            ]
        }"#)),
    };

    assert!(transcript_requests_shell_readback(transcript));
    assert!(!transcript_requests_long_range_work(transcript));
    assert!(!shell_readback_missing_for_goal(transcript, &turn));
    apply_verified_readback_reply(transcript, &mut turn);
    assert_eq!(turn.response, "fastpath evidence 314159");
    assert!(!should_replan_after_turn(
        transcript,
        &turn,
        Some("confirmed"),
        1,
        AgentLoopBudget::Unbounded
    ));
}

#[test]
fn shell_expected_final_stdout_replans_when_wrong_value_was_read() {
    let transcript = "Use local shell only. First deliberately write WRONG-VALUE to result.txt and read it back to observe that it does not match the desired value. Then repair it by writing exactly FINAL-VALUE-441 to result.txt, read result.txt back to stdout, and report the exact final stdout.";
    let turn = CompletedAssistantTurn {
        response: "Writing initial wrong value and reading it back.".to_string(),
        action: Some(json(r#"{
            "kind": "shell_exec",
            "command": "printf WRONG-VALUE > /tmp/result.txt && cat /tmp/result.txt",
            "timeout_ms": 5000
        }"#)),
        evidence: Some(json(r#"{
            "effect": "confirmed",
            "evidence": [
                {"kind": "value_readback", "message": "shell exited 0; stdout=WRONG-VALUE; stderr="}
            ]
        }"#)),
    };

    assert_eq!(
        expected_final_shell_stdout_value(transcript).as_deref(),
        Some("FINAL-VALUE-441")
    );
    assert!(shell_expected_stdout_missing_for_goal(transcript, &turn));
    assert!(should_replan_after_turn(
        transcript,
        &turn,
        Some("partial"),
        1,
        AgentLoopBudget::Unbounded
    ));
    assert_eq!(
        text_at(&shell_expected_stdout_missing_evidence(transcript, turn.evidence), "reason"),
        "shell_expected_final_stdout_not_observed"
    );
}

#[test]
fn shell_expected_final_stdout_finishes_when_value_was_read() {
    let transcript = "First write a mismatch and observe it. Then repair it by writing exactly FINAL-VALUE-441 to result.txt, read result.txt back to stdout, and report the exact final stdout.";
    let turn = CompletedAssistantTurn {
        response: "Repairing and reading result.txt.".to_string(),
        action: Some(json(r#"{
            "kind": "shell_exec",
            "command": "printf FINAL-VALUE-441 > /tmp/result.txt && cat /tmp/result.txt",
            "timeout_ms": 5000
        }"#)),
        evidence: Some(json(r#"{
            "effect": "confirmed",
            "evidence": [
                {"kind": "value_readback", "message": "shell exited 0; stdout=FINAL-VALUE-441; stderr="}
            ]
        }"#)),
    };

    assert!(!shell_expected_stdout_missing_for_goal(transcript, &turn));
    assert!(!should_replan_after_turn(
        transcript,
        &turn,
        Some("confirmed"),
        1,
        AgentLoopBudget::Unbounded
    ));
}

#[test]
fn aegis_readback_requests_reject_empty_stdout_confirmations() {
    let transcript = "Using Aegis headless only, search the web, inspect the official result, read the page, and report the verified behavior.";
    let empty_stdout_turn = CompletedAssistantTurn {
        response: "Reading page text.".to_string(),
        action: Some(json(r#"{
            "kind": "aegis",
            "args": ["--mode", "headless", "page", "text", "--scope", "main"],
            "timeout_ms": 15000
        }"#)),
        evidence: Some(json(r#"{
            "effect": "confirmed",
            "evidence": [
                {"kind": "value_readback", "message": "aegis exited 0; stdout=; stderr="}
            ]
        }"#)),
    };
    let stdout_turn = CompletedAssistantTurn {
        response: "Reading page text.".to_string(),
        action: Some(json(r#"{
            "kind": "aegis",
            "args": ["--mode", "headless", "page", "text"],
            "timeout_ms": 15000
        }"#)),
        evidence: Some(json(r#"{
            "effect": "confirmed",
            "evidence": [
                {"kind": "value_readback", "message": "aegis exited 0; stdout=SQLite Foreign Key Support; stderr="}
            ]
        }"#)),
    };
    let navigation_turn = CompletedAssistantTurn {
        response: "Opening the page.".to_string(),
        action: Some(json(r#"{
            "kind": "aegis",
            "args": ["--mode", "headless", "navigate", "https://www.sqlite.org/foreignkeys.html"],
            "timeout_ms": 15000
        }"#)),
        evidence: Some(json(r#"{
            "effect": "confirmed",
            "evidence": [
                {"kind": "value_readback", "message": "aegis exited 0; stdout=[]; stderr="}
            ]
        }"#)),
    };
    let navigate_then_empty_read_turn = CompletedAssistantTurn {
        response: "Opening the page and reading main text.".to_string(),
        action: Some(json(r#"{
            "kind": "sequence",
            "actions": [
                {
                    "kind": "aegis",
                    "args": ["--mode", "headless", "navigate", "https://www.sqlite.org/foreignkeys.html"],
                    "timeout_ms": 15000
                },
                {
                    "kind": "aegis",
                    "args": ["--mode", "headless", "page", "text", "--scope", "main"],
                    "timeout_ms": 15000
                }
            ],
            "inter_action_delay_ms": 120
        }"#)),
        evidence: Some(json(r#"{
            "effect": "confirmed",
            "evidence": [
                {"kind": "value_readback", "message": "aegis exited 0; stdout=[{\"event\":{\"type\":\"navigation\"}}]; stderr="},
                {"kind": "value_readback", "message": "aegis exited 0; stdout=; stderr="}
            ]
        }"#)),
    };
    let navigate_then_single_readback_turn = CompletedAssistantTurn {
        response: "Opening the page and reading main text.".to_string(),
        action: Some(json(r#"{
            "kind": "sequence",
            "actions": [
                {
                    "kind": "aegis",
                    "args": ["--mode", "headless", "navigate", "https://www.sqlite.org/foreignkeys.html"],
                    "timeout_ms": 15000
                },
                {
                    "kind": "aegis",
                    "args": ["--mode", "headless", "page", "text", "--scope", "main"],
                    "timeout_ms": 15000
                }
            ],
            "inter_action_delay_ms": 120
        }"#)),
        evidence: Some(json(r#"{
            "effect": "confirmed",
            "evidence": [
                {"kind": "value_readback", "message": "aegis exited 0; stdout=SQLite Foreign Key Support; stderr="}
            ]
        }"#)),
    };

    assert!(aegis_readback_missing_for_goal(
        transcript,
        &empty_stdout_turn
    ));
    assert!(!aegis_readback_missing_for_goal(transcript, &stdout_turn));
    assert!(!aegis_readback_missing_for_goal(
        transcript,
        &navigation_turn
    ));
    assert!(aegis_readback_missing_for_goal(
        transcript,
        &navigate_then_empty_read_turn
    ));
    assert!(!aegis_readback_missing_for_goal(
        transcript,
        &navigate_then_single_readback_turn
    ));
    assert_eq!(
        text_at(&aegis_readback_missing_evidence(empty_stdout_turn.evidence), "reason"),
        "aegis_observation_readback_missing_for_long_range_goal"
    );
}

#[test]
fn aegis_actions_are_stamped_with_profile_scoped_runtime() {
    let mut action = InputAction::Sequence {
        actions: vec![InputAction::Aegis {
            args: vec![
                "--mode".to_string(),
                "headless".to_string(),
                "page".to_string(),
                "text".to_string(),
                "--scope".to_string(),
                "main".to_string(),
            ],
            timeout_ms: 15_000,
        }],
        inter_action_delay_ms: 0,
    };

    stamp_action(&mut action, &profile_settings("profile with spaces", &None, &None));

    let InputAction::Sequence { actions, .. } = action else {
        panic!("expected sequence");
    };
    let InputAction::Aegis { args, .. } = &actions[0] else {
        panic!("expected aegis action");
    };
    assert_eq!(args[0], "--server-addr");
    assert!(args[1].starts_with("127.0.0.1:"));
    assert_eq!(args[2], "--profile");
    assert_eq!(args[3], "cua-profile-with-spaces");
    assert_eq!(args[4], "--mode");
    assert_eq!(args[5], "headless");
    assert_eq!(args[6], "page");
}

#[test]
fn aegis_runtime_stamp_preserves_explicit_server() {
    let mut action = InputAction::Aegis {
        args: vec![
            "--server-addr".to_string(),
            "127.0.0.1:7878".to_string(),
            "--profile".to_string(),
            "custom".to_string(),
            "page".to_string(),
            "actions".to_string(),
        ],
        timeout_ms: 15_000,
    };

    stamp_action(&mut action, &profile_settings("ignored", &None, &None));

    let InputAction::Aegis { args, .. } = action else {
        panic!("expected aegis action");
    };
    assert_eq!(
        args,
        vec![
            "--server-addr".to_string(),
            "127.0.0.1:7878".to_string(),
            "--profile".to_string(),
            "custom".to_string(),
            "page".to_string(),
            "actions".to_string(),
        ]
    );
}

#[test]
fn long_range_browser_research_expands_typed_open_only_setup_before_dispatch() {
    let action = InputAction::OpenApp {
        app_name: "Safari".to_string(),
    };

    assert!(input_action_is_open_only_setup(&action));
    assert!(transcript_requests_long_range_work(
        "Open Safari and search for the official Gemini documentation"
    ));
}

#[test]
fn explicit_aegis_requests_only_use_aegis_backend_actions() {
    assert!(transcript_explicitly_requests_aegis(
        "Use Aegis in headless mode to inspect the page"
    ));
    assert!(!transcript_explicitly_requests_aegis(
        "Use the browser in headless mode to inspect the page"
    ));
    assert!(input_action_uses_only_aegis_backend(
        &InputAction::Aegis {
            args: vec![
                "--mode".to_string(),
                "headless".to_string(),
                "page".to_string(),
                "actions".to_string(),
            ],
            timeout_ms: 15_000,
        }
    ));
    assert!(input_action_uses_only_aegis_backend(
        &InputAction::Sequence {
            actions: vec![
                InputAction::Aegis {
                    args: vec![
                        "--mode".to_string(),
                        "headless".to_string(),
                        "navigate".to_string(),
                        "https://example.com".to_string(),
                    ],
                    timeout_ms: 15_000,
                },
                InputAction::Aegis {
                    args: vec![
                        "--mode".to_string(),
                        "headless".to_string(),
                        "page".to_string(),
                        "markdown".to_string(),
                        "--scope".to_string(),
                        "article".to_string(),
                    ],
                    timeout_ms: 15_000,
                },
            ],
            inter_action_delay_ms: 120,
        }
    ));
    assert!(!input_action_uses_only_aegis_backend(
        &InputAction::ShellExec {
            command: "cat ./README.md".to_string(),
            timeout_ms: 5_000,
        }
    ));
    assert!(!input_action_uses_only_aegis_backend(
        &InputAction::Sequence {
            actions: vec![
                InputAction::Aegis {
                    args: vec![
                        "--mode".to_string(),
                        "headless".to_string(),
                        "page".to_string(),
                        "actions".to_string(),
                    ],
                    timeout_ms: 15_000,
                },
                InputAction::KeyPaste {
                    text: "Verified page type".to_string(),
                },
            ],
            inter_action_delay_ms: 120,
        }
    ));
}

#[test]
fn agent_loop_long_range_confirmed_tool_actions_continue_after_reobserve() {
    let turn = CompletedAssistantTurn {
        response: "Searching with Aegis.".to_string(),
        action: Some(json(r#"{
            "kind": "aegis",
            "args": ["--mode", "headful", "page", "goto", "https://example.com"]
        }"#)),
        evidence: Some(json(r#"{"effect": "confirmed"}"#)),
    };

    assert!(should_continue_long_range_after_verified_action(
        "Research cloud computer agents and summarize the options",
        &turn,
        Some("confirmed"),
        1,
        AgentLoopBudget::Finite { max_attempts: 5 }
    ));
    assert!(should_replan_after_turn(
        "Research cloud computer agents and summarize the options",
        &turn,
        Some("confirmed"),
        1,
        AgentLoopBudget::Finite { max_attempts: 5 }
    ));
    assert!(!should_continue_long_range_after_verified_action(
        "Open the browser",
        &turn,
        Some("confirmed"),
        1,
        AgentLoopBudget::Finite { max_attempts: 5 }
    ));
    assert!(!should_continue_long_range_after_verified_action(
        "Research cloud computer agents",
        &turn,
        Some("confirmed"),
        5,
        AgentLoopBudget::Finite { max_attempts: 5 }
    ));
    assert!(should_continue_long_range_after_verified_action(
        "Research cloud computer agents",
        &turn,
        Some("confirmed"),
        50,
        AgentLoopBudget::Unbounded
    ));
}

#[test]
fn agent_loop_aegis_navigation_inspection_requests_continue_after_navigation() {
    let turn = CompletedAssistantTurn {
        response: "Navigating with Aegis.".to_string(),
        action: Some(json(r#"{
            "kind": "aegis",
            "args": ["--mode", "headless", "navigate", "https://example.com"]
        }"#)),
        evidence: Some(json(r#"{"effect": "confirmed"}"#)),
    };
    let transcript = "Use Aegis in headless mode to navigate to https://example.com, inspect the page actions or page text, and report the verified page title or heading.";

    assert!(transcript_requests_long_range_work(transcript));
    assert!(should_continue_long_range_after_verified_action(
        transcript,
        &turn,
        Some("confirmed"),
        1,
        AgentLoopBudget::Unbounded
    ));
    assert!(should_replan_after_turn(
        transcript,
        &turn,
        Some("confirmed"),
        1,
        AgentLoopBudget::Unbounded
    ));
}

#[test]
fn agent_loop_qualitative_aegis_task_requires_semantic_readback_before_final() {
    let transcript = "Use Aegis headless to navigate to the SQLite foreign key documentation, inspect the page text, and report the verified title.";
    let mut attempts = Vec::new();
    let budget = AgentLoopBudget::Unbounded;

    let navigation = CompletedAssistantTurn {
        response: "Navigating to the documentation.".to_string(),
        action: Some(json(r#"{
            "kind": "aegis",
            "args": ["--mode", "headless", "navigate", "https://www.sqlite.org/foreignkeys.html"],
            "timeout_ms": 15000
        }"#)),
        evidence: Some(json(r#"{
            "effect": "confirmed",
            "evidence": [
                {"kind": "value_readback", "message": "aegis exited 0; stdout=[]; stderr="}
            ]
        }"#)),
    };
    let navigation_effect = observed_turn_effect(&navigation, &attempts);
    assert!(should_replan_after_turn(
        transcript,
        &navigation,
        navigation_effect.as_deref(),
        1,
        budget
    ));
    attempts.push(PlanAttemptContext {
        attempt_index: 1,
        response: navigation.response.clone(),
        action: navigation.action.clone(),
        effect: navigation_effect,
        evidence: navigation.evidence.clone(),
    });

    let empty_readback = CompletedAssistantTurn {
        response: "Reading the page text.".to_string(),
        action: Some(json(r#"{
            "kind": "aegis",
            "args": ["--mode", "headless", "page", "text", "--scope", "main"],
            "timeout_ms": 15000
        }"#)),
        evidence: Some(json(r#"{
            "effect": "confirmed",
            "evidence": [
                {"kind": "value_readback", "message": "aegis exited 0; stdout=; stderr="}
            ]
        }"#)),
    };
    assert!(aegis_readback_missing_for_goal(transcript, &empty_readback));
    let empty_readback_evidence = Some(aegis_readback_missing_evidence(
        empty_readback.evidence.clone(),
    ));
    attempts.push(PlanAttemptContext {
        attempt_index: 2,
        response: empty_readback.response.clone(),
        action: empty_readback.action.clone(),
        effect: Some("partial".to_string()),
        evidence: empty_readback_evidence,
    });

    let premature_final = "The verified title is SQLite Foreign Key Support.".to_string();
    assert!(action_null_stops_long_range_without_evidence(
        transcript,
        &premature_final,
        &None,
        &attempts
    ));

    let semantic_readback = CompletedAssistantTurn {
        response: "Reading the page title.".to_string(),
        action: Some(json(r#"{
            "kind": "aegis",
            "args": ["--mode", "headless", "page", "text", "--scope", "title"],
            "timeout_ms": 15000
        }"#)),
        evidence: Some(json(r#"{
            "effect": "confirmed",
            "evidence": [
                {"kind": "value_readback", "message": "aegis exited 0; stdout=SQLite Foreign Key Support; stderr="}
            ]
        }"#)),
    };
    assert!(!aegis_readback_missing_for_goal(
        transcript,
        &semantic_readback
    ));
    attempts.push(PlanAttemptContext {
        attempt_index: 3,
        response: semantic_readback.response.clone(),
        action: semantic_readback.action.clone(),
        effect: Some("confirmed".to_string()),
        evidence: semantic_readback.evidence.clone(),
    });

    assert!(action_null_finishes_after_prior_attempts(
        &premature_final,
        &None,
        &attempts
    ));
    assert!(!action_null_stops_long_range_without_evidence(
        transcript,
        &premature_final,
        &None,
        &attempts
    ));
    let completed = attach_loop_evidence(
        CompletedAssistantTurn {
            response: premature_final,
            action: None,
            evidence: None,
        },
        &attempts,
    );

    assert_eq!(turn_effect(&completed), Some("confirmed".to_string()));
    assert_eq!(number_at(completed.evidence.as_ref().unwrap(), "attempt_count"), 4);
}

#[test]
fn agent_loop_treats_null_action_progress_claims_as_incomplete() {
    assert!(planner_response_claims_pending_work(
        "Opening Safari and searching for the official Gemini page."
    ));
    assert!(planner_response_claims_pending_work(
        "Let me check the browser and read the page title."
    ));
    assert!(planner_response_claims_pending_work(
        "Creating directory, writing input.txt, transforming it to output.txt, and verifying"
    ));
    assert!(planner_response_claims_pending_work(
        "Running the shell command and checking the output."
    ));
    assert!(!planner_response_claims_pending_work(
        "Running `/usr/bin/false` failed with exit status 1."
    ));
    assert!(!planner_response_claims_pending_work(
        "The verified title is Gemini models."
    ));
}

#[test]
fn agent_loop_long_range_text_entry_actions_continue_to_verification() {
    let turn = CompletedAssistantTurn {
        response: "Writing the summary.".to_string(),
        action: Some(json(r#"{
            "kind": "sequence",
            "actions": [
                {"kind": "open_app", "app_name": "Notes"},
                {"kind": "key_paste", "text": "Summary"}
            ]
        }"#)),
        evidence: Some(json(r#"{"effect": "confirmed"}"#)),
    };

    assert!(should_continue_long_range_after_verified_action(
        "Research cloud computer agents, write the summary in Notes, then read it back to verify it",
        &turn,
        Some("confirmed"),
        1,
        AgentLoopBudget::Finite { max_attempts: 5 }
    ));
    assert!(should_replan_after_turn(
        "Research cloud computer agents, write the summary in Notes, then read it back to verify it",
        &turn,
        Some("confirmed"),
        1,
        AgentLoopBudget::Finite { max_attempts: 5 }
    ));
}

#[test]
fn agent_loop_long_range_standalone_text_entry_continues_to_verification() {
    let turn = CompletedAssistantTurn {
        response: "Pasting the requested text.".to_string(),
        action: Some(json(r#"{"kind": "key_paste", "text": "Summary"}"#)),
        evidence: Some(json(r#"{"effect": "confirmed"}"#)),
    };

    assert!(should_continue_long_range_after_verified_action(
        "Paste Summary into Notes, then read it back to verify it",
        &turn,
        Some("confirmed"),
        1,
        AgentLoopBudget::Finite { max_attempts: 5 }
    ));
    assert!(should_replan_after_turn(
        "Paste Summary into Notes, then read it back to verify it",
        &turn,
        Some("confirmed"),
        1,
        AgentLoopBudget::Finite { max_attempts: 5 }
    ));
}

#[test]
fn agent_loop_browser_search_text_entry_continues_after_reobserve() {
    let turn = CompletedAssistantTurn {
        response: "Searching the web.".to_string(),
        action: Some(json(r#"{
            "kind": "sequence",
            "actions": [
                {"kind": "mouse_click", "x": 510, "y": 204, "button": "left", "count": 1},
                {"kind": "key_paste", "text": "official Gemini 3.7 Flash documentation"},
                {"kind": "key_press", "combo": "enter"}
            ],
            "inter_action_delay_ms": 120
        }"#)),
        evidence: Some(json(r#"{"effect": "confirmed"}"#)),
    };

    assert!(turn
        .action
        .as_ref()
        .is_some_and(action_is_browser_research_setup));
    assert!(should_continue_long_range_after_verified_action(
        "Open Safari and search for official Gemini docs, then read the title",
        &turn,
        Some("confirmed"),
        1,
        AgentLoopBudget::Unbounded
    ));
    assert!(should_replan_after_turn(
        "Open Safari and search for official Gemini docs, then read the title",
        &turn,
        Some("confirmed"),
        1,
        AgentLoopBudget::Unbounded
    ));
}

#[test]
fn agent_loop_visible_safari_search_sequence_continues_without_aegis() {
    let turn = CompletedAssistantTurn {
        response: "Searching in Safari.".to_string(),
        action: Some(json(r#"{
            "kind": "sequence",
            "actions": [
                {"kind": "open_app", "app_name": "Safari"},
                {"kind": "key_press", "combo": "cmd+l"},
                {"kind": "key_paste", "text": "official SQLite foreign key documentation"},
                {"kind": "key_press", "combo": "enter"}
            ],
            "inter_action_delay_ms": 120
        }"#)),
        evidence: Some(json(r#"{"effect": "confirmed"}"#)),
    };

    let action = turn.action.as_ref().unwrap();
    assert!(action_is_browser_research_setup(action));
    assert!(!json_action_uses_aegis(action));
    assert!(should_replan_after_turn(
        "Open Safari and search for the official SQLite foreign key documentation, then read the source and report the verified title.",
        &turn,
        Some("confirmed"),
        1,
        AgentLoopBudget::Unbounded
    ));
}

#[test]
fn agent_loop_calculator_input_continues_to_read_result() {
    let turn = CompletedAssistantTurn {
        response: "Opening Calculator and calculating 123 + 456.".to_string(),
        action: Some(json(r#"{
            "kind": "sequence",
            "actions": [
                {"kind": "open_app", "app_name": "Calculator"},
                {"kind": "key_type", "text": "123+456="}
            ],
            "inter_action_delay_ms": 300
        }"#)),
        evidence: Some(json(r#"{"effect": "confirmed"}"#)),
    };

    assert!(!turn
        .action
        .as_ref()
        .is_some_and(|action| action_is_user_text_fulfillment(
            "Open Calculator, calculate 123 plus 456, read the displayed result, and report the verified result.",
            action
        )));
    assert!(should_replan_after_turn(
        "Open Calculator, calculate 123 plus 456, read the displayed result, and report the verified result.",
        &turn,
        Some("confirmed"),
        1,
        AgentLoopBudget::Unbounded
    ));
}

#[test]
fn action_reply_text_does_not_append_dispatch_effect() {
    let turn = CompletedAssistantTurn {
        response: "Opening Calculator and calculating 123 + 456.".to_string(),
        action: Some(json(r#"{
            "kind": "key_type",
            "text": "123+456="
        }"#)),
        evidence: Some(json(r#"{"effect": "confirmed"}"#)),
    };

    assert_eq!(
        user_visible_reply_text(&turn),
        "Opening Calculator and calculating 123 + 456."
    );
}

#[test]
fn action_null_pending_reply_is_rejected_as_incomplete() {
    assert!(action_null_plan_claims_pending_work(
        "Opening Calculator via Spotlight and typing 123",
        &None
    ));
    assert!(action_null_plan_claims_pending_work(
        "Creating input.txt, transforming it to output.txt, and verifying.",
        &None
    ));
    assert!(!action_null_plan_claims_pending_work(
        "The displayed result is 579.",
        &None
    ));
    assert!(!action_null_plan_claims_pending_work(
        "The documentation says reading mode is supported.",
        &None
    ));
    assert!(!action_null_plan_claims_pending_work(
        "According to the source, checking happens every 30 seconds.",
        &None
    ));
    assert!(!action_null_plan_claims_pending_work(
        "I am done; the verified result is 579.",
        &None
    ));
    assert!(!action_null_plan_claims_pending_work(
        "I'm unable to continue because access is denied.",
        &None
    ));
    assert!(action_null_plan_claims_pending_work(
        "I'm opening Calculator via Spotlight.",
        &None
    ));
    assert!(action_null_plan_claims_pending_work(
        "I am searching the documentation.",
        &None
    ));
    assert!(action_null_plan_claims_pending_work(
        "I will search the documentation.",
        &None
    ));
    assert!(action_null_plan_claims_pending_work(
        "I'll open Calculator.",
        &None
    ));
    assert!(!action_null_plan_claims_pending_work(
        "I will not continue because access is denied.",
        &None
    ));
    assert!(!action_null_plan_claims_pending_work(
        "I'll stop here: the verified result is 579.",
        &None
    ));
    assert!(!action_null_plan_claims_pending_work(
        "Openingness is not a pending action.",
        &None
    ));
    assert!(!action_null_plan_claims_pending_work(
        "I'm readingly done with the verified result.",
        &None
    ));
}

#[test]
fn long_range_action_null_stop_without_evidence_is_rejected() {
    assert!(action_null_stops_long_range_without_evidence(
        "Open Safari, research Gemini docs, read the page title, and report it.",
        "The page title is Gemini models.",
        &None,
        &Vec::new()
    ));
    assert!(action_null_stops_long_range_without_evidence(
        "Search the web and summarize what you verify.",
        "I could not complete the search.",
        &None,
        &vec![PlanAttemptContext {
            attempt_index: 1,
            response: "Opening Safari.".to_string(),
            action: Some(json(r#"{"kind": "open_app", "app_name": "Safari"}"#)),
            effect: Some("confirmed".to_string()),
            evidence: Some(json(r#"{"effect": "confirmed"}"#)),
        }]
    ));
}

#[test]
fn long_range_action_null_allows_evidence_backed_final_or_real_blocker() {
    let readback_attempts = vec![PlanAttemptContext {
        attempt_index: 1,
        response: "Reading the page title.".to_string(),
        action: Some(json(r#"{
            "kind": "aegis",
            "args": ["--mode", "headless", "page", "text", "--scope", "main"],
            "timeout_ms": 15000
        }"#)),
        effect: Some("confirmed".to_string()),
        evidence: Some(json(r#"{
            "effect": "confirmed",
            "evidence": [{
                "kind": "value_readback",
                "message": "aegis exited 0; stdout=Gemini models; stderr="
            }]
        }"#)),
    }];

    assert!(!action_null_stops_long_range_without_evidence(
        "Use Aegis headless, read the page title, and report the verified title.",
        "The verified title is Gemini models.",
        &None,
        &readback_attempts
    ));
    assert!(action_null_finishes_after_prior_attempts(
        "According to the source, reading mode is supported.",
        &None,
        &readback_attempts
    ));
    assert!(action_null_stops_long_range_without_evidence(
        "Open Safari and research the internal admin page.",
        "I need you to sign in before I can continue.",
        &None,
        &Vec::new()
    ));
    assert!(action_null_stops_long_range_without_evidence(
        "Open Safari and research the internal admin page.",
        "Permission is required before I can continue.",
        &None,
        &Vec::new()
    ));
    assert!(action_null_stops_long_range_without_evidence(
        "Open Safari and research the internal admin page.",
        "Access denied.",
        &None,
        &Vec::new()
    ));
    assert!(!action_null_stops_long_range_without_evidence(
        "Open Safari and research the internal admin page.",
        "I need you to sign in before I can continue.",
        &None,
        &vec![PlanAttemptContext {
            attempt_index: 1,
            response: "Opening the admin page.".to_string(),
            action: Some(json(r#"{
                "kind": "aegis",
                "args": ["--mode", "headless", "navigate", "https://admin.example.com"]
            }"#)),
            effect: Some("refused".to_string()),
            evidence: Some(json(r#"{
                "effect": "refused",
                "message": "login required"
            }"#)),
        }]
    ));
    assert!(action_null_stops_long_range_without_evidence(
        "Open Safari and research the internal admin page.",
        "I need you to sign in before I can continue.",
        &None,
        &vec![PlanAttemptContext {
            attempt_index: 1,
            response: "Clicking the admin link.".to_string(),
            action: Some(json(r#"{
                "kind": "mouse_click",
                "x": 10,
                "y": 20
            }"#)),
            effect: Some("unverifiable".to_string()),
            evidence: Some(json(r#"{
                "effect": "unverifiable"
            }"#)),
        }]
    ));
    assert!(action_null_stops_long_range_without_evidence(
        "Open Safari and research the internal admin page.",
        "I need you to sign in before I can continue.",
        &None,
        &vec![PlanAttemptContext {
            attempt_index: 1,
            response: "Reading a missing local file.".to_string(),
            action: Some(json(r#"{
                "kind": "shell_exec",
                "command": "cat /tmp/does-not-exist"
            }"#)),
            effect: Some("failed".to_string()),
            evidence: Some(json(r#"{
                "effect": "failed",
                "error": "cat: /tmp/does-not-exist: No such file or directory"
            }"#)),
        }]
    ));
    assert!(action_null_stops_long_range_without_evidence(
        "Search the web and summarize what you verify.",
        "I failed to complete the search.",
        &None,
        &vec![PlanAttemptContext {
            attempt_index: 1,
            response: "I will search the web.".to_string(),
            action: None,
            effect: Some("suspected_noop".to_string()),
            evidence: Some(json(r#"{
                "effect": "suspected_noop",
                "reason": "action_null_plan_claimed_pending_work"
            }"#)),
        }]
    ));
    assert!(action_null_stops_long_range_without_evidence(
        "Open Safari, research the page, and report the verified title.",
        "I failed to verify the page title.",
        &None,
        &vec![PlanAttemptContext {
            attempt_index: 1,
            response: "Clicking the result.".to_string(),
            action: Some(json(r#"{
                "kind": "mouse_click",
                "x": 320,
                "y": 428,
                "button": "left",
                "count": 1
            }"#)),
            effect: Some("unverifiable".to_string()),
            evidence: Some(json(r#"{
                "effect": "unverifiable"
            }"#)),
        }]
    ));
    assert!(!action_null_stops_long_range_without_evidence(
        "Open Safari and research the internal admin page.",
        "Permission is required before I can continue.",
        &None,
        &vec![PlanAttemptContext {
            attempt_index: 1,
            response: "Reading the admin page.".to_string(),
            action: Some(json(r#"{
                "kind": "aegis",
                "args": ["--mode", "headless", "page", "text", "--scope", "main"]
            }"#)),
            effect: Some("failed".to_string()),
            evidence: Some(json(r#"{
                "effect": "failed",
                "error": "permission denied"
            }"#)),
        }]
    ));
    assert!(!action_null_stops_long_range_without_evidence(
        "Search the web for the item.",
        "Which item should I search for?",
        &None,
        &Vec::new()
    ));
    assert!(!action_null_stops_long_range_without_evidence(
        "Search the web for the item.",
        "The request is ambiguous; please clarify which item to search for.",
        &None,
        &Vec::new()
    ));
    assert!(action_null_stops_long_range_without_evidence(
        "Search the web and summarize what you verify.",
        "I found what you asked for.",
        &None,
        &Vec::new()
    ));
    assert!(action_null_stops_long_range_without_evidence(
        "Search the web and report what the source allows.",
        "The page allows API access.",
        &None,
        &Vec::new()
    ));
    assert!(action_null_stops_long_range_without_evidence(
        "Search the web and summarize the docs.",
        "The permission docs describe OAuth login.",
        &None,
        &Vec::new()
    ));
    assert!(action_null_stops_long_range_without_evidence(
        "Search the web and summarize the docs.",
        "The authorization guide mentions that blocked popups can affect login flows.",
        &None,
        &Vec::new()
    ));
    assert!(action_null_stops_long_range_without_evidence(
        "Search the web and summarize the docs.",
        "The FAQ asks: what is OAuth?",
        &None,
        &Vec::new()
    ));
    assert!(action_null_stops_long_range_without_evidence(
        "Search the web and summarize the docs.",
        "The Rust guide discusses unsafe code and why some APIs are not allowed in safe contexts.",
        &None,
        &Vec::new()
    ));
}

#[test]
fn failure_boundary_rejects_single_shell_command_that_swallows_failure_and_recovers() {
    let transcript = "Using local shell only, first try to read /tmp/cua/does-not-exist.txt and observe the failure. Then recover by creating /tmp/cua/recovered.txt containing exactly recovered after deliberate failure 909, read recovered.txt back to stdout, and report the exact stdout. Do not skip the initial failing read.";
    let collapsed = InputAction::ShellExec {
        command: "cat /tmp/cua/does-not-exist.txt 2>&1 || true; mkdir -p /tmp/cua && printf 'recovered after deliberate failure 909' > /tmp/cua/recovered.txt && cat /tmp/cua/recovered.txt".to_string(),
        timeout_ms: 5000,
    };

    assert!(failure_boundary_plan_collapses_recovery(
        transcript,
        &collapsed,
        &Vec::new()
    ));
}

#[test]
fn failure_boundary_allows_pure_initial_failing_read() {
    let transcript = "Using local shell only, first try to read /tmp/cua/does-not-exist.txt and observe the failure. Then recover by creating /tmp/cua/recovered.txt.";
    let first_read = InputAction::ShellExec {
        command: "cat /tmp/cua/does-not-exist.txt".to_string(),
        timeout_ms: 5000,
    };

    assert!(!failure_boundary_plan_collapses_recovery(
        transcript,
        &first_read,
        &Vec::new()
    ));
}

#[test]
fn failure_boundary_allows_recovery_after_failed_read_was_observed() {
    let transcript = "Using local shell only, first try to read /tmp/cua/does-not-exist.txt and observe the failure. Then recover by creating /tmp/cua/recovered.txt.";
    let prior_attempts = vec![PlanAttemptContext {
        attempt_index: 1,
        response: "Attempting to read the missing file.".to_string(),
        action: Some(json(r#"{
            "kind": "shell_exec",
            "command": "cat /tmp/cua/does-not-exist.txt",
            "timeout_ms": 5000
        }"#)),
        effect: Some("failed".to_string()),
        evidence: Some(json(r#"{
            "effect": "failed",
            "evidence": [{
                "kind": "error",
                "message": "shell exited 1; stdout=; stderr=cat: /tmp/cua/does-not-exist.txt: No such file or directory"
            }]
        }"#)),
    }];
    let recovery = InputAction::ShellExec {
        command: "mkdir -p /tmp/cua && printf 'recovered after deliberate failure 909' > /tmp/cua/recovered.txt && cat /tmp/cua/recovered.txt".to_string(),
        timeout_ms: 5000,
    };

    assert!(!failure_boundary_plan_collapses_recovery(
        transcript,
        &recovery,
        &prior_attempts
    ));
}

#[test]
fn failure_boundary_does_not_block_normal_shell_batching_without_observed_failure_request() {
    let transcript = "Create /tmp/cua/recovered.txt, read it back, and report stdout.";
    let batched = InputAction::ShellExec {
        command: "mkdir -p /tmp/cua && printf 'recovered after deliberate failure 909' > /tmp/cua/recovered.txt && cat /tmp/cua/recovered.txt".to_string(),
        timeout_ms: 5000,
    };

    assert!(!failure_boundary_plan_collapses_recovery(
        transcript,
        &batched,
        &Vec::new()
    ));
}

#[test]
fn failure_boundary_rejects_sequence_that_hides_required_observation_between_actions() {
    let transcript = "First try the missing file read and observe the failure, then recover by writing the output file.";
    let sequence = InputAction::Sequence {
        actions: vec![
            InputAction::ShellExec {
                command: "cat /tmp/cua/missing.txt".to_string(),
                timeout_ms: 5000,
            },
            InputAction::ShellExec {
                command: "printf 'ok' > /tmp/cua/recovered.txt".to_string(),
                timeout_ms: 5000,
            },
        ],
        inter_action_delay_ms: 120,
    };

    assert!(failure_boundary_plan_collapses_recovery(
        transcript,
        &sequence,
        &Vec::new()
    ));
}

#[test]
fn final_visible_readback_after_confirmed_action_infers_confirmed_effect() {
    assert!(final_response_claims_verified_result(
        "The visible month and year in Calendar is August 2026."
    ));
    assert!(final_response_claims_verified_result(
        "Calculator shows 123 + 456 with a result of 579."
    ));
    assert!(final_response_claims_verified_result(
        "/tmp/cua-default-budget-a.txt contains 'default budget source 913'."
    ));
    assert!(final_response_claims_verified_result(
        "Based on official SQLite documentation, foreign key constraint enforcement is disabled by default."
    ));
    assert!(!final_response_claims_verified_result(
        "Opening Calculator via Spotlight and typing 123"
    ));
    assert!(!final_response_claims_verified_result(
        "Navigating to Example Domain to inspect its content and links."
    ));
}

#[test]
fn final_error_readback_after_refused_action_infers_failed_effect() {
    let prior_attempts = vec![PlanAttemptContext {
        attempt_index: 1,
        response: "Reading the file via shell.".to_string(),
        action: Some(json(r#"{
            "kind": "shell_exec",
            "command": "cat /tmp/missing",
            "timeout_ms": 5000
        }"#)),
        effect: Some("refused".to_string()),
        evidence: Some(json(r#"{
            "effect": "refused",
            "reason": "dispatch_error",
            "error": "cat: /tmp/missing: No such file or directory"
        }"#)),
    }];
    let completed = CompletedAssistantTurn {
        response:
            "The file does not exist. Error: cat: /tmp/missing: No such file or directory"
                .to_string(),
        action: None,
        evidence: None,
    };

    assert!(final_response_reports_prior_failure(&completed.response));
    assert_eq!(inferred_final_effect(&completed, &prior_attempts), "failed");
}

#[test]
fn agent_loop_final_no_action_attempt_outcome_uses_inferred_effect() {
    let prior_attempts = vec![PlanAttemptContext {
        attempt_index: 1,
        response: "Creating and reading the file.".to_string(),
        action: Some(json(r#"{
            "kind": "shell_exec",
            "command": "printf 'done' > /tmp/example && cat /tmp/example",
            "timeout_ms": 5000
        }"#)),
        effect: Some("confirmed".to_string()),
        evidence: Some(json(r#"{
            "effect": "confirmed",
            "evidence": [{
                "kind": "value_readback",
                "message": "shell exited 0; stdout=done; stderr="
            }]
        }"#)),
    }];
    let completed = CompletedAssistantTurn {
        response: "/tmp/example contains 'done'.".to_string(),
        action: None,
        evidence: None,
    };

    assert_eq!(
        observed_turn_effect(&completed, &prior_attempts),
        Some("confirmed".to_string())
    );
}

#[test]
fn shell_readback_reply_preserves_multiline_stdout() {
    let mut turn = CompletedAssistantTurn {
        response: "Creating and reading output.txt.".to_string(),
        action: Some(json(r#"{
            "kind": "shell_exec",
            "command": "cat /tmp/example/output.txt",
            "timeout_ms": 5000
        }"#)),
        evidence: Some(json(r#"{
            "effect": "confirmed",
            "evidence": [{
                "kind": "value_readback",
                "message": "shell exited 0; stdout=ALPHA\nBETA\nGAMMA\n; stderr="
            }]
        }"#)),
    };

    apply_verified_readback_reply(
        "Use local shell only, read output.txt back to stdout, and report the exact stdout.",
        &mut turn,
    );

    assert_eq!(turn.response, "ALPHA\nBETA\nGAMMA");
}

#[test]
fn sourced_final_answer_after_aegis_evidence_infers_confirmed_effect() {
    let prior_attempts = vec![PlanAttemptContext {
        attempt_index: 1,
        response:
            "Finding the foreign key default status in the SQLite documentation via Aegis."
                .to_string(),
        action: Some(json(r#"{
            "kind": "aegis",
            "args": ["--mode", "headless", "page", "find", "disabled by default"],
            "timeout_ms": 15000
        }"#)),
        effect: Some("confirmed".to_string()),
        evidence: Some(json(r#"{
            "effect": "confirmed",
            "evidence": [{
                "kind": "value_readback",
                "message": "aegis exited 0; stdout={\"title\":\"SQLite Foreign Key Support\",\"url\":\"https://www.sqlite.org/foreignkeys.html\",\"match_count\":1}; stderr="
            }]
        }"#)),
    }];
    let completed = CompletedAssistantTurn {
        response: "Based on official SQLite documentation (\"SQLite Foreign Key Support\"), foreign key constraint enforcement is disabled by default and must be explicitly enabled for each database connection.".to_string(),
        action: None,
        evidence: None,
    };

    assert_eq!(
        observed_turn_effect(&completed, &prior_attempts),
        Some("confirmed".to_string())
    );
}

#[test]
fn final_timeout_readback_after_refused_action_infers_failed_effect() {
    let prior_attempts = vec![PlanAttemptContext {
        attempt_index: 1,
        response: "Running the shell command with a 500ms timeout.".to_string(),
        action: Some(json(r#"{
            "kind": "shell_exec",
            "command": "sh -lc 'sleep 2; printf slow-failure >&2; exit 9'",
            "timeout_ms": 500
        }"#)),
        effect: Some("refused".to_string()),
        evidence: Some(json(r#"{
            "effect": "refused",
            "reason": "dispatch_error",
            "error": "shell command timed out after 500ms"
        }"#)),
    }];
    let completed = CompletedAssistantTurn {
        response: "The command timed out as expected: shell command timed out after 500ms."
            .to_string(),
        action: None,
        evidence: None,
    };

    assert!(final_response_reports_prior_failure(&completed.response));
    assert_eq!(inferred_final_effect(&completed, &prior_attempts), "failed");
    assert!(!final_response_reports_prior_failure(
        "According to the source, the timeout setting defaults to 30 seconds."
    ));
    assert!(!final_response_reports_prior_failure(
        "The documentation says the feature is unavailable on weekends."
    ));
    assert!(!final_response_reports_prior_failure(
        "The search result says phrase not found is a normal zero-match state."
    ));
    assert!(final_response_reports_prior_failure(
        "The command reported a timeout error after 500ms."
    ));
}

#[test]
fn agent_loop_final_failure_report_stops_without_extra_repair() {
    let prior_attempts = vec![PlanAttemptContext {
        attempt_index: 1,
        response: "Running /usr/bin/false via shell.".to_string(),
        action: Some(json(r#"{
            "kind": "shell_exec",
            "command": "/usr/bin/false",
            "timeout_ms": 5000
        }"#)),
        effect: Some("refused".to_string()),
        evidence: Some(json(r#"{
            "effect": "refused",
            "reason": "dispatch_error",
            "error": "shell exited 1; stdout=; stderr="
        }"#)),
    }];
    let completed = CompletedAssistantTurn {
        response: "Running `/usr/bin/false` failed with exit status 1 (stdout='', stderr='')."
            .to_string(),
        action: None,
        evidence: None,
    };
    let effect = observed_turn_effect(&completed, &prior_attempts);

    assert_eq!(effect, Some("failed".to_string()));
    assert!(final_response_reports_prior_failure(
        "Running `/usr/bin/false` exited with return code 1 (stdout was empty, stderr was empty)."
    ));
    assert!(!should_replan_after_turn(
        "Use the local shell to run exactly /usr/bin/false, then report the exact failure context. Do not retry and do not recover.",
        &completed,
        effect.as_deref(),
        2,
        AgentLoopBudget::Unbounded
    ));
}

#[test]
fn agent_loop_pending_navigation_reply_is_not_confirmed_final_result() {
    let prior_attempts = vec![PlanAttemptContext {
        attempt_index: 1,
        response: "Opening the Example result.".to_string(),
        action: Some(json(r#"{
            "kind": "aegis",
            "args": ["--mode", "headless", "page", "open-link", "Example"],
            "timeout_ms": 15000
        }"#)),
        effect: Some("refused".to_string()),
        evidence: Some(json(r#"{
            "effect": "refused",
            "error": "ambiguous_link_match"
        }"#)),
    }];
    let completed = CompletedAssistantTurn {
        response: "Navigating to Example Domain to inspect its content and links.".to_string(),
        action: None,
        evidence: None,
    };

    assert!(planner_response_claims_pending_work(&completed.response));
    assert_eq!(
        observed_turn_effect(&completed, &prior_attempts),
        Some("stopped".to_string())
    );
    assert!(!should_replan_after_turn(
        "Use Aegis in headless mode to search the web for Example Domain IANA, open the most relevant result if needed, inspect the page actions or text, and report the verified page title and one link label.",
        &completed,
        Some("stopped"),
        9,
        AgentLoopBudget::Unbounded
    ));
}

#[test]
fn verified_action_null_reply_can_finish_text_request_after_prior_evidence() {
    let prior_attempts = vec![PlanAttemptContext {
        attempt_index: 1,
        response: "Writing and reading clipboard contents.".to_string(),
        action: Some(json(r#"{
            "kind": "shell_exec",
            "command": "printf 'clipboard loop proof 612' | pbcopy && pbpaste",
            "timeout_ms": 5000
        }"#)),
        effect: Some("confirmed".to_string()),
        evidence: Some(json(r#"{
            "effect": "confirmed",
            "evidence": [{
                "kind": "value_readback",
                "message": "shell exited 0; stdout=clipboard loop proof 612; stderr="
            }]
        }"#)),
    }];

    assert!(action_null_finishes_after_prior_attempts(
        "The verified clipboard contents are: clipboard loop proof 612",
        &None,
        &prior_attempts
    ));
    assert!(!action_null_finishes_after_prior_attempts(
        "Writing proof text to clipboard.",
        &None,
        &prior_attempts
    ));
    assert!(!action_null_finishes_after_prior_attempts(
        "The verified clipboard contents are: clipboard loop proof 612",
        &None,
        &Vec::new()
    ));
}

#[test]
fn loose_text_or_value_metadata_does_not_support_verified_final() {
    for evidence in [
        json(r#"{"effect": "confirmed", "text": "looks done"}"#),
        json(r#"{"effect": "confirmed", "value": "looks done"}"#),
    ] {
        let prior_attempts = vec![PlanAttemptContext {
            attempt_index: 1,
            response: "Opening Safari.".to_string(),
            action: Some(json(r#"{"kind": "open_app", "app_name": "Safari"}"#)),
            effect: Some("confirmed".to_string()),
            evidence: Some(evidence),
        }];

        assert!(!action_null_finishes_after_prior_attempts(
            "The verified browser title is Example Domain.",
            &None,
            &prior_attempts
        ));
    }
}

#[test]
fn clipboard_readback_message_supports_verified_final() {
    let prior_attempts = vec![PlanAttemptContext {
        attempt_index: 1,
        response: "Reading clipboard contents.".to_string(),
        action: Some(json(r#"{"kind": "clipboard_read", "allow_sensitive": true}"#)),
        effect: Some("confirmed".to_string()),
        evidence: Some(json(r#"{
            "effect": "confirmed",
            "evidence": [{
                "kind": "value_readback",
                "message": "clipboard proof 812"
            }]
        }"#)),
    }];

    assert!(action_null_finishes_after_prior_attempts(
        "The verified clipboard contents are clipboard proof 812.",
        &None,
        &prior_attempts
    ));
}

#[test]
fn failure_action_null_reply_requires_prior_failure_evidence() {
    let bare_confirmed_attempts = vec![PlanAttemptContext {
        attempt_index: 1,
        response: "Opening the app.".to_string(),
        action: Some(json(r#"{"kind": "open_app", "app_name": "Safari"}"#)),
        effect: Some("confirmed".to_string()),
        evidence: Some(json(r#"{"effect": "confirmed"}"#)),
    }];
    let failed_attempts = vec![PlanAttemptContext {
        attempt_index: 1,
        response: "Reading the missing file.".to_string(),
        action: Some(json(r#"{
            "kind": "shell_exec",
            "command": "cat /tmp/does-not-exist",
            "timeout_ms": 5000
        }"#)),
        effect: Some("failed".to_string()),
        evidence: Some(json(r#"{
            "effect": "failed",
            "reason": "dispatch_error",
            "error": "cat: /tmp/does-not-exist: No such file or directory"
        }"#)),
    }];

    assert!(!action_null_finishes_after_prior_attempts(
        "Safari failed because the page timed out.",
        &None,
        &bare_confirmed_attempts
    ));
    assert_eq!(
        inferred_final_effect(
            &CompletedAssistantTurn {
                response: "Safari failed because the page timed out.".to_string(),
                action: None,
                evidence: None,
            },
            &bare_confirmed_attempts
        ),
        "stopped"
    );
    assert!(action_null_finishes_after_prior_attempts(
        "The file failed with no such file or directory.",
        &None,
        &failed_attempts
    ));
}

#[test]
fn explicit_aegis_final_answers_require_prior_aegis_evidence() {
    let local_attempts = vec![PlanAttemptContext {
        attempt_index: 1,
        response: "Reading local docs.".to_string(),
        action: Some(json(r#"{
            "kind": "shell_exec",
            "command": "cat ./README.md",
            "timeout_ms": 5000
        }"#)),
        effect: Some("confirmed".to_string()),
        evidence: Some(json(r#"{"effect": "confirmed"}"#)),
    }];
    let aegis_attempts = vec![PlanAttemptContext {
        attempt_index: 1,
        response: "Inspecting page with Aegis.".to_string(),
        action: Some(json(r#"{
            "kind": "sequence",
            "actions": [
                {"kind": "aegis", "args": ["--mode", "headless", "page", "actions"], "timeout_ms": 15000}
            ]
        }"#)),
        effect: Some("confirmed".to_string()),
        evidence: Some(json(r#"{"effect": "confirmed"}"#)),
    }];
    let aegis_readback_attempts = vec![PlanAttemptContext {
        attempt_index: 1,
        response: "Inspecting page with Aegis.".to_string(),
        action: Some(json(r#"{
            "kind": "sequence",
            "actions": [
                {"kind": "aegis", "args": ["--mode", "headless", "page", "actions"], "timeout_ms": 15000}
            ]
        }"#)),
        effect: Some("confirmed".to_string()),
        evidence: Some(json(r#"{
            "effect": "confirmed",
            "evidence": [{
                "kind": "value_readback",
                "message": "aegis exited 0; stdout={\"page_type\":\"documentation\"}; stderr="
            }]
        }"#)),
    }];
    let aegis_navigation_attempts = vec![PlanAttemptContext {
        attempt_index: 1,
        response: "Navigating with Aegis.".to_string(),
        action: Some(json(r#"{
            "kind": "aegis",
            "args": ["--mode", "headless", "navigate", "https://example.com"],
            "timeout_ms": 15000
        }"#)),
        effect: Some("confirmed".to_string()),
        evidence: Some(json(r#"{
            "effect": "confirmed",
            "evidence": [{
                "kind": "value_readback",
                "message": "aegis exited 0; stdout=[]; stderr="
            }]
        }"#)),
    }];
    let aegis_event_attempts = vec![PlanAttemptContext {
        attempt_index: 1,
        response: "Navigating with Aegis.".to_string(),
        action: Some(json(r#"{
            "kind": "sequence",
            "actions": [
                {"kind": "aegis", "args": ["--mode", "headless", "navigate", "https://example.com"], "timeout_ms": 15000}
            ]
        }"#)),
        effect: Some("confirmed".to_string()),
        evidence: Some(json(r#"{
            "effect": "confirmed",
            "evidence": [{
                "kind": "value_readback",
                "message": "aegis exited 0; stdout=[{\"event\":{\"type\":\"navigation\"}}]; stderr="
            }]
        }"#)),
    }];
    let mixed_aegis_readback_attempts = vec![PlanAttemptContext {
        attempt_index: 1,
        response: "Opening and inspecting with Aegis.".to_string(),
        action: Some(json(r#"{
            "kind": "sequence",
            "actions": [
                {"kind": "open_app", "app_name": "Safari"},
                {"kind": "aegis", "args": ["--mode", "headless", "page", "text", "--scope", "main"], "timeout_ms": 15000}
            ]
        }"#)),
        effect: Some("confirmed".to_string()),
        evidence: Some(json(r#"{
            "effect": "confirmed",
            "evidence": [{
                "kind": "value_readback",
                "message": "aegis exited 0; stdout=Example Domain; stderr="
            }]
        }"#)),
    }];
    let failed_aegis_attempts = vec![PlanAttemptContext {
        attempt_index: 1,
        response: "Inspecting page with Aegis.".to_string(),
        action: Some(json(r#"{
            "kind": "aegis",
            "args": ["--mode", "headless", "page", "actions"],
            "timeout_ms": 15000
        }"#)),
        effect: Some("refused".to_string()),
        evidence: Some(json(r#"{"effect": "refused", "error": "server unavailable"}"#)),
    }];

    assert!(!prior_attempts_include_aegis_evidence(&local_attempts));
    assert!(prior_attempts_include_aegis_evidence(&aegis_attempts));
    assert!(!prior_attempts_support_explicit_aegis_final(
        "Verified page type: documentation",
        &local_attempts
    ));
    assert!(!prior_attempts_support_explicit_aegis_final(
        "Verified page type: documentation",
        &aegis_attempts
    ));
    assert!(prior_attempts_support_explicit_aegis_final(
        "Verified page type: documentation",
        &aegis_readback_attempts
    ));
    assert!(!prior_attempts_support_explicit_aegis_final(
        "Verified page title: Example Domain",
        &aegis_navigation_attempts
    ));
    assert!(!prior_attempts_support_explicit_aegis_final(
        "Verified page title: Example Domain",
        &aegis_event_attempts
    ));
    assert!(prior_attempts_support_explicit_aegis_final(
        "Verified page title: Example Domain",
        &mixed_aegis_readback_attempts
    ));
    assert!(!prior_attempts_support_explicit_aegis_final(
        "Verified page type: documentation",
        &failed_aegis_attempts
    ));
    assert!(prior_attempts_support_explicit_aegis_final(
        "Aegis failed with server unavailable",
        &failed_aegis_attempts
    ));
}

#[test]
fn explicit_aegis_not_found_final_can_use_zero_match_partial_evidence() {
    let zero_match_attempts = vec![PlanAttemptContext {
        attempt_index: 1,
        response: "Inspecting Example Domain with Aegis.".to_string(),
        action: Some(json(r#"{
            "kind": "sequence",
            "actions": [
                {
                    "kind": "aegis",
                    "args": ["--mode", "headless", "navigate", "https://example.com"],
                    "timeout_ms": 15000
                },
                {
                    "kind": "aegis",
                    "args": ["--mode", "headless", "page", "text", "--scope", "main"],
                    "timeout_ms": 15000
                },
                {
                    "kind": "aegis",
                    "args": ["--mode", "headless", "page", "find", "cua impossible phrase"],
                    "timeout_ms": 15000
                }
            ],
            "inter_action_delay_ms": 120
        }"#)),
        effect: Some("partial".to_string()),
        evidence: Some(json(r#"{
            "effect": "partial",
            "reason": "aegis_observation_readback_missing_for_long_range_goal",
            "evidence": [
                {"kind": "value_readback", "message": "aegis exited 0; stdout=[{\"event\":{\"type\":\"navigation\"}}]; stderr="},
                {"kind": "value_readback", "message": "aegis exited 0; stdout=; stderr="},
                {"kind": "value_readback", "message": "aegis exited 0; stdout={\"title\":\"Example Domain\",\"match_count\":0,\"matches\":[]}; stderr="}
            ]
        }"#)),
    }];
    let weak_partial_attempts = vec![PlanAttemptContext {
        attempt_index: 1,
        response: "Inspecting Example Domain with Aegis.".to_string(),
        action: Some(json(r#"{
            "kind": "aegis",
            "args": ["--mode", "headless", "page", "text", "--scope", "main"],
            "timeout_ms": 15000
        }"#)),
        effect: Some("partial".to_string()),
        evidence: Some(json(r#"{
            "effect": "partial",
            "reason": "aegis_observation_readback_missing_for_long_range_goal",
            "evidence": [
                {"kind": "value_readback", "message": "aegis exited 0; stdout=; stderr="}
            ]
        }"#)),
    }];
    let page_text_zero_count_attempts = vec![PlanAttemptContext {
        attempt_index: 1,
        response: "Inspecting page text with Aegis.".to_string(),
        action: Some(json(r#"{
            "kind": "aegis",
            "args": ["--mode", "headless", "page", "text", "--scope", "main"],
            "timeout_ms": 15000
        }"#)),
        effect: Some("partial".to_string()),
        evidence: Some(json(r#"{
            "effect": "partial",
            "evidence": [
                {"kind": "value_readback", "message": "aegis exited 0; stdout={\"title\":\"Example Domain\",\"match_count\":0}; stderr="}
            ]
        }"#)),
    }];
    let mixed_page_find_attempts = vec![PlanAttemptContext {
        attempt_index: 1,
        response: "Opening and finding text with Aegis.".to_string(),
        action: Some(json(r#"{
            "kind": "sequence",
            "actions": [
                {"kind": "open_app", "app_name": "Safari"},
                {"kind": "aegis", "args": ["--mode", "headless", "page", "find", "cua impossible phrase"], "timeout_ms": 15000}
            ]
        }"#)),
        effect: Some("partial".to_string()),
        evidence: Some(json(r#"{
            "effect": "partial",
            "evidence": [
                {"kind": "value_readback", "message": "aegis exited 0; stdout={\"title\":\"Example Domain\",\"match_count\":0,\"matches\":[]}; stderr="}
            ]
        }"#)),
    }];

    assert!(prior_attempts_include_aegis_zero_match(
        &zero_match_attempts
    ));
    assert!(!prior_attempts_include_aegis_zero_match(
        &page_text_zero_count_attempts
    ));
    assert!(prior_attempts_include_aegis_zero_match(
        &mixed_page_find_attempts
    ));
    assert!(prior_attempts_support_explicit_aegis_final(
        "The phrase was not found on the verified page title Example Domain.",
        &zero_match_attempts
    ));
    assert!(prior_attempts_support_explicit_aegis_final(
        "No matches were found on the verified page title Example Domain.",
        &zero_match_attempts
    ));
    assert!(!prior_attempts_support_explicit_aegis_final(
        "The phrase was not found on the verified page title Example Domain.",
        &weak_partial_attempts
    ));
    assert!(!prior_attempts_support_explicit_aegis_final(
        "The documentation explains how not found errors are represented.",
        &zero_match_attempts
    ));
    assert!(!prior_attempts_support_explicit_aegis_final(
        "The phrase was not found on the verified page title Example Domain.",
        &page_text_zero_count_attempts
    ));
}

#[test]
fn repeated_confirmed_long_range_action_is_repair_evidence_not_dispatch() {
    let action = json(r#"{
        "kind": "sequence",
        "actions": [
            {"kind": "open_app", "app_name": "Calculator"},
            {"kind": "key_type", "text": "123+456="}
        ],
        "inter_action_delay_ms": 300
    }"#);
    let attempts = vec![PlanAttemptContext {
        attempt_index: 1,
        response: "Opening Calculator and calculating 123 + 456.".to_string(),
        action: Some(json(r#"{
            "kind": "sequence",
            "actions": [
                {"kind": "open_app", "app_name": "Calculator"},
                {"kind": "key_type", "text": "123+456="}
            ],
            "inter_action_delay_ms": 500
        }"#)),
        effect: Some("confirmed".to_string()),
        evidence: Some(json(r#"{"effect": "confirmed"}"#)),
    }];

    assert!(action_repeats_confirmed_attempt(&attempts, &action));
}

#[test]
fn agent_loop_rejects_repeated_observation_without_state_change() {
    let action = json(r#"{
        "kind": "aegis",
        "args": ["--mode", "headless", "page", "links"],
        "timeout_ms": 15000
    }"#);
    let attempts = vec![PlanAttemptContext {
        attempt_index: 1,
        response: "Checking search result links.".to_string(),
        action: Some(action.clone()),
        effect: Some("confirmed".to_string()),
        evidence: Some(json(r#"{"effect": "confirmed"}"#)),
    }];

    assert!(action_is_observation_only(&action));
    assert!(action_repeats_confirmed_attempt(&attempts, &action));
}

#[test]
fn agent_loop_allows_repeated_observation_after_state_changes() {
    let action = json(r#"{
        "kind": "aegis",
        "args": ["--mode", "headless", "page", "links"],
        "timeout_ms": 15000
    }"#);
    let attempts = vec![
        PlanAttemptContext {
            attempt_index: 1,
            response: "Checking search result links.".to_string(),
            action: Some(action.clone()),
            effect: Some("confirmed".to_string()),
            evidence: Some(json(r#"{"effect": "confirmed"}"#)),
        },
        PlanAttemptContext {
            attempt_index: 2,
            response: "Opening a result.".to_string(),
            action: Some(json(r#"{
                "kind": "aegis",
                "args": ["--mode", "headless", "page", "open-link", "Example Domain"],
                "timeout_ms": 15000
            }"#)),
            effect: Some("confirmed".to_string()),
            evidence: Some(json(r#"{"effect": "confirmed"}"#)),
        },
    ];

    assert!(action_is_observation_only(&action));
    assert!(!action_repeats_confirmed_attempt(&attempts, &action));
}

#[test]
fn agent_loop_treats_aegis_navigation_as_side_effecting_for_repeat_guard() {
    let action = json(r#"{
        "kind": "aegis",
        "args": ["--mode", "headless", "navigate", "https://example.com"],
        "timeout_ms": 15000
    }"#);
    let attempts = vec![PlanAttemptContext {
        attempt_index: 1,
        response: "Navigating.".to_string(),
        action: Some(action.clone()),
        effect: Some("confirmed".to_string()),
        evidence: Some(json(r#"{"effect": "confirmed"}"#)),
    }];

    assert!(!action_is_observation_only(&action));
    assert!(action_repeats_confirmed_attempt(&attempts, &action));
}

#[test]
fn agent_loop_long_range_navigation_clicks_continue_after_reobserve() {
    let turn = CompletedAssistantTurn {
        response: "Opening the search result.".to_string(),
        action: Some(json(r#"{
            "kind": "mouse_click",
            "x": 360,
            "y": 430,
            "button": "left",
            "count": 1
        }"#)),
        evidence: Some(json(r#"{"effect": "confirmed"}"#)),
    };

    assert!(should_replan_after_turn(
        "Open Safari, research Gemini docs, read the title, and report it",
        &turn,
        Some("confirmed"),
        4,
        AgentLoopBudget::Unbounded
    ));
}

#[test]
fn agent_loop_marks_long_range_budget_exhaustion_as_partial_progress() {
    let turn = CompletedAssistantTurn {
        response: "Opening Safari for research.".to_string(),
        action: Some(json(r#"{
            "kind": "sequence",
            "actions": [
                {"kind": "open_app", "app_name": "Safari"},
                {"kind": "key_press", "combo": "cmd+l"}
            ]
        }"#)),
        evidence: Some(json(r#"{"effect": "confirmed"}"#)),
    };

    let completed = mark_long_range_budget_exhausted_if_needed(
        "Research cloud computer agents and summarize what you verify",
        turn,
        5,
        AgentLoopBudget::Finite { max_attempts: 5 },
    );

    assert_eq!(turn_effect(&completed), Some("partial".to_string()));
    assert!(completed.response.contains("5-attempt loop budget"));
    assert_eq!(
        text_at(completed.evidence.as_ref().unwrap(), "reason"),
        "long_range_goal_reached_agent_loop_budget"
    );
}

#[test]
fn agent_loop_unbounded_budget_never_marks_attempts_exhausted() {
    let turn = CompletedAssistantTurn {
        response: "Reading another source.".to_string(),
        action: Some(json(r#"{
            "kind": "aegis",
            "args": ["--mode", "headful", "page", "text", "--scope", "main"]
        }"#)),
        evidence: Some(json(r#"{"effect": "confirmed"}"#)),
    };

    let completed = mark_long_range_budget_exhausted_if_needed(
        "Research cloud computer agents and keep going until verified",
        turn,
        10_000,
        AgentLoopBudget::Unbounded,
    );

    assert_eq!(turn_effect(&completed), Some("confirmed".to_string()));
    assert_eq!(completed.response, "Reading another source.");
}

#[test]
fn agent_loop_evidence_counts_budget_exhausted_final_attempt_once() {
    let action = Some(json(r#"{
        "kind": "aegis",
        "args": ["--mode", "headful", "page", "text", "--scope", "main"]
    }"#));
    let last_evidence = Some(json(r#"{"effect": "confirmed"}"#));
    let prior_attempts = vec![
        PlanAttemptContext {
            attempt_index: 1,
            response: "Searching.".to_string(),
            action: Some(
                json(r#"{"kind": "aegis", "args": ["--mode", "headful", "search", "cloud agents"]}"#),
            ),
            effect: Some("confirmed".to_string()),
            evidence: Some(json(r#"{"effect": "confirmed"}"#)),
        },
        PlanAttemptContext {
            attempt_index: 2,
            response: "Reading.".to_string(),
            action: action.clone(),
            effect: Some("confirmed".to_string()),
            evidence: last_evidence.clone(),
        },
    ];
    let completed = CompletedAssistantTurn {
        response:
            "I made progress but hit the 2-attempt loop budget before completing the full task."
                .to_string(),
        action,
        evidence: Some(json(r#"{
            "effect": "partial",
            "reason": "long_range_goal_reached_agent_loop_budget",
            "max_attempts": 2,
            "last_evidence": {"effect": "confirmed"}
        }"#)),
    };

    assert_eq!(loop_attempt_count(&completed, &prior_attempts), 2);
    let completed = attach_loop_evidence(completed, &prior_attempts);

    assert_eq!(number_at(completed.evidence.as_ref().unwrap(), "attempt_count"), 2);
}

#[test]
fn agent_loop_marks_text_entry_budget_exhaustion_as_partial_for_long_range_work() {
    let turn = CompletedAssistantTurn {
        response: "Writing the summary.".to_string(),
        action: Some(json(r#"{"kind": "key_paste", "text": "Summary"}"#)),
        evidence: Some(json(r#"{"effect": "confirmed"}"#)),
    };

    let completed = mark_long_range_budget_exhausted_if_needed(
        "Research cloud computer agents and write the summary in Notes",
        turn,
        5,
        AgentLoopBudget::Finite { max_attempts: 5 },
    );

    assert_eq!(turn_effect(&completed), Some("partial".to_string()));
    assert!(completed.response.contains("5-attempt loop budget"));
}

#[test]
fn new_note_text_entry_plans_are_repaired_to_create_note_once() {
    let mut action = Some(InputAction::KeyPaste {
        text: "hello".to_string(),
    });

    repair_new_note_text_entry_plan(
        "Open Notes and create a new note that says hello",
        &mut action,
    );

    let Some(InputAction::Sequence { actions, .. }) = action else {
        panic!("expected repaired sequence");
    };
    assert!(matches!(
        actions.as_slice(),
        [
            InputAction::OpenApp { app_name },
            InputAction::KeyPress { combo },
            InputAction::KeyPaste { text },
        ] if app_name == "Notes" && combo == "cmd+n" && text == "hello"
    ));
}

#[test]
fn ordinary_text_entry_plans_are_not_forced_into_new_notes() {
    let mut action = Some(InputAction::KeyPaste {
        text: "hello".to_string(),
    });

    repair_new_note_text_entry_plan("Paste hello", &mut action);

    assert!(matches!(
        action,
        Some(InputAction::KeyPaste { ref text }) if text == "hello"
    ));
}

#[test]
fn visible_reobserve_supports_verified_final_without_confirming_delivery() {
    let attempts = vec![PlanAttemptContext {
        attempt_index: 1,
        response: "Writing the note.".to_string(),
        action: Some(json(r#"{"kind": "key_paste", "text": "hello"}"#)),
        effect: Some("unverifiable".to_string()),
        evidence: Some(json(r#"{
            "effect": "unverifiable",
            "verification_observation": {
                "has_frame": true,
                "has_desktop": true,
                "errors": []
            }
        }"#)),
    }];

    assert!(prior_attempts_support_verified_final(
        "The visible note now reads hello.",
        &attempts
    ));
    assert!(!prior_attempts_support_verified_final("Done.", &attempts));
    let mut unobserved_attempts = attempts;
    unobserved_attempts[0].evidence = Some(json(r#"{"effect": "unverifiable"}"#));
    assert!(!prior_attempts_support_verified_final(
        "The visible note now reads hello.",
        &unobserved_attempts
    ));
}

#[test]
fn loop_evidence_does_not_duplicate_final_attempt_already_recorded_for_reobserve() {
    let action =
        Some(json(r#"{"kind": "sequence", "actions": [{"kind": "key_paste", "text": "hello"}]}"#));
    let evidence = Some(json(r#"{"effect": "confirmed"}"#));
    let completed = CompletedAssistantTurn {
        response: "Done.".to_string(),
        action: action.clone(),
        evidence: evidence.clone(),
    };
    let attempts = vec![PlanAttemptContext {
        attempt_index: 1,
        response: "Done.".to_string(),
        action,
        effect: Some("confirmed".to_string()),
        evidence,
    }];

    assert_eq!(loop_attempt_count(&completed, &attempts), 1);
    let completed = attach_loop_evidence(completed, &attempts);

    assert_eq!(number_at(completed.evidence.as_ref().unwrap(), "attempt_count"), 1);
}

#[test]
fn agent_loop_evidence_preserves_failed_attempts_and_final_effect() {
    let completed = CompletedAssistantTurn {
        response: "Done.".to_string(),
        action: Some(json(r#"{"kind": "open_app", "app_name": "Safari"}"#)),
        evidence: Some(json(r#"{"effect": "confirmed", "message": "Safari opened"}"#)),
    };
    let prior_attempts = vec![PlanAttemptContext {
        attempt_index: 1,
        response: "Opening Safari.".to_string(),
        action: Some(json(r#"{"kind": "mouse_click", "x": 1, "y": 2}"#)),
        effect: Some("suspected_noop".to_string()),
        evidence: Some(json(r#"{"effect": "suspected_noop", "message": "No change"}"#)),
    }];

    let completed = attach_loop_evidence(completed, &prior_attempts);
    let evidence = completed.evidence.unwrap();

    assert_eq!(text_at(&evidence, "effect"), "confirmed");
    assert_eq!(number_at(&evidence, "attempt_count"), 2);
    assert_eq!(text_at(item_at(&evidence, "attempts", 0), "effect"), "suspected_noop");
    assert_eq!(text_at(item_at(&evidence, "attempts", 1), "effect"), "confirmed");
    assert_eq!(
        turn_effect(&CompletedAssistantTurn {
            response: completed.response,
            action: completed.action,
            evidence: Some(evidence),
        }),
        Some("confirmed".to_string())
    );
}

#[test]
fn agent_loop_evidence_survives_final_clarification() {
    let completed = CompletedAssistantTurn {
        response: "I need a visible target.".to_string(),
        action: None,
        evidence: None,
    };
    let prior_attempts = vec![PlanAttemptContext {
        attempt_index: 1,
        response: "Clicking.".to_string(),
        action: Some(json(r#"{"kind": "mouse_click", "x": 1, "y": 2}"#)),
        effect: Some("unverifiable".to_string()),
        evidence: Some(json(r#"{"effect": "unverifiable"}"#)),
    }];

    let completed = attach_loop_evidence(completed, &prior_attempts);
    let evidence = completed.evidence.unwrap();

    assert!(completed.action.is_none());
    assert_eq!(text_at(&evidence, "effect"), "stopped");
    assert_eq!(number_at(&evidence, "attempt_count"), 2);
    assert_eq!(text_at(item_at(&evidence, "attempts", 0), "effect"), "unverifiable");
    assert_eq!(text_at(item_at(&evidence, "attempts", 1), "effect"), "stopped");
}

#[test]
fn agent_loop_does_not_confirm_final_answer_from_bare_action_delivery() {
    let completed = CompletedAssistantTurn {
        response: "The verified page title is Gemini models.".to_string(),
        action: None,
        evidence: None,
    };
    let prior_attempts = vec![PlanAttemptContext {
        attempt_index: 1,
        response: "Opening the result.".to_string(),
        action: Some(json(r#"{
            "kind": "mouse_click",
            "x": 320,
            "y": 428,
            "button": "left",
            "count": 1
        }"#)),
        effect: Some("confirmed".to_string()),
        evidence: Some(json(r#"{"effect": "confirmed"}"#)),
    }];

    let completed = attach_loop_evidence(completed, &prior_attempts);

    assert_eq!(turn_effect(&completed), Some("stopped".to_string()));
}

#[test]
fn recorded_audio_validation_rejects_only_short_audio() {
    assert!(validate_recorded_audio(from_millis(500)).is_err());
    assert!(validate_recorded_audio(from_millis(800)).is_ok());
    assert!(validate_recorded_audio(from_millis(650) - 1).is_err());
    assert!(validate_recorded_audio(from_millis(650)).is_ok());
}

#[test]
fn stt_diagnostic_uses_class_without_promoting_transcript() {
    let transcript = SttTranscript {
        text: "you".to_string(),
        backend: "openrouter".to_string(),
        model: DEFAULT_STT_MODEL.to_string(),
        generation_id: None,
        audio_ms: None,
        usage: None,
    };

    let VoiceUiEvent::SttDiagnostic {
        backend,
        model,
        generation_id,
        audio_ms,
        transcript_class,
    } = stt_diagnostic_event(&transcript)
    else {
        panic!("expected a diagnostic");
    };
    assert_eq!(backend, "openrouter");
    assert_eq!(model, DEFAULT_STT_MODEL);
    assert_eq!(generation_id, None);
    assert_eq!(audio_ms, None);
    assert_eq!(transcript_class, "missed_speech");
}

#[test]
fn context_prefetch_timeout_is_bounded_for_voice_latency() {
    assert_eq!(context_prefetch_timeout(&Some("1".to_string())), 250);
    assert_eq!(context_prefetch_timeout(&Some("60000".to_string())), 30_000);
    assert_eq!(
        context_prefetch_timeout(&None),
        DEFAULT_CONTEXT_PREFETCH_TIMEOUT_MS
    );
    assert_eq!(
        context_prefetch_timeout(&Some("nope".to_string())),
        DEFAULT_CONTEXT_PREFETCH_TIMEOUT_MS
    );
}

#[test]
fn agent_loop_attempt_budget_defaults_to_unbounded_and_accepts_operator_overrides() {
    let budget = |value: &str| agent_loop_budget(&Some(value.to_string()));
    assert_eq!(agent_loop_budget(&None), AgentLoopBudget::Unbounded);
    assert_eq!(budget("12"), AgentLoopBudget::Finite { max_attempts: 12 });
    assert_eq!(budget("n"), AgentLoopBudget::Unbounded);
    assert_eq!(budget(" N "), AgentLoopBudget::Unbounded);
    assert_eq!(budget("30"), AgentLoopBudget::Finite { max_attempts: 30 });
    assert_eq!(budget("0"), AgentLoopBudget::Unbounded);
    assert_eq!(budget("not-a-number"), AgentLoopBudget::Unbounded);
}

#[test]
fn debug_trace_is_off_by_default() {
    let trace = VoiceTurnTrace {
        enabled: false,
        path: Some("/tmp/cua-trace-off.jsonl".to_string()),
        turn_id: "test-turn".to_string(),
    };

    assert!(trace.append("test_event", 1, json(r#"{"ok": true}"#)).is_none());
    assert!(!VoiceConfig::default().debug_trace);
}

#[test]
fn debug_trace_writes_jsonl_when_enabled() {
    let trace = VoiceTurnTrace {
        enabled: true,
        path: Some("/tmp/cua-trace-on.jsonl".to_string()),
        turn_id: "test-turn".to_string(),
    };
    let value = trace.append("test_event", 17, json(r#"{"ok": true}"#)).unwrap();

    assert_eq!(text_at(&value, "schema_version"), "cua.voice_trace.v1");
    assert_eq!(text_at(&value, "event"), "test_event");
    assert!(value.get("data").unwrap().get_flag("ok"));
    assert_eq!(
        print_json(&value).unwrap(),
        r#"{"at_wall_ms":17,"data":{"ok":true},"event":"test_event","schema_version":"cua.voice_trace.v1","turn_id":"test-turn"}"#
    );
}

#[test]
fn planning_context_records_prefetch_join_failure() {
    let mut errors = vec!["session acquire failed: no socket".to_string()];
    context_join_failed(&mut errors, "task panicked");

    assert!(errors
        .first()
        .is_some_and(|error| error.contains("context prefetch join failed")));
    assert_eq!(errors.len(), 2);
}
