//! A turn around its planning: what was heard, what is known before, and what
//! the user is told after.

use vstd::prelude::*;

use crate::attempt::CompletedAssistantTurn;
use crate::audio::RecordedAudio;
use crate::failure::{
    is_missed_speech_message, means_missed_speech, no_command_message, user_visible_turn_error,
    validate_recorded_audio, validate_stt_transcript, visible_error, MIN_RECORDING,
};
use crate::json::{texts_view, Json};
use crate::json_text::{json_printed, print};
use crate::progress::{step_label, voice_step_label};
use crate::speech::{SttTranscript, DEFAULT_STT_BACKEND, DEFAULT_STT_MODEL};
use crate::text::{
    concat, decimal, decimal_of, ends_with, has_text, lemma_number_is_read_back, occurs_at,
    opt_text, parse_u64, parsed, starts_with, texts,
};
use crate::time::{as_millis, whole_millis};
use crate::transcript::{class_of, transcript_class};
use crate::ui_state::{event_views, EventView, VoiceUiEvent};

verus! {

pub const DEFAULT_PLANNER_MODEL: &'static str = "gemini-3.7-flash";

pub const DEFAULT_CONTEXT_PREFETCH_TIMEOUT_MS: u64 = 2_500;

/// How a voice turn is run.
#[derive(Clone, Debug)]
pub struct VoiceConfig {
    pub profile: String,
    pub record_ms: u64,
    pub stt_backend: String,
    pub stt_model: String,
    pub planner_model: String,
    pub debug_trace: bool,
}

impl Default for VoiceConfig {
    fn default() -> (config: VoiceConfig)
        ensures
            config.profile@ == "default"@,
            config.record_ms == 4_500,
            config.stt_backend@ == DEFAULT_STT_BACKEND@,
            config.stt_model@ == DEFAULT_STT_MODEL@,
            config.planner_model@ == DEFAULT_PLANNER_MODEL@,
            !config.debug_trace,
    {
        VoiceConfig {
            profile: "default".to_owned(),
            record_ms: 4_500,
            stt_backend: DEFAULT_STT_BACKEND.to_owned(),
            stt_model: DEFAULT_STT_MODEL.to_owned(),
            planner_model: DEFAULT_PLANNER_MODEL.to_owned(),
            debug_trace: false,
        }
    }
}

/// What the user is told of a turn.
pub fn user_visible_reply_text(completed: &CompletedAssistantTurn) -> (text: String)
    ensures
        text@ == completed@.response,
{
    completed.response.clone()
}

/// The end of a turn: the reply, and whether anything was done.
#[derive(Clone, Debug, PartialEq, Eq)]
pub struct VoiceTurnCompletion {
    pub reply: String,
    pub action: bool,
}

impl VoiceTurnCompletion {
    pub fn from_completed(completed: &CompletedAssistantTurn) -> (completion: VoiceTurnCompletion)
        ensures
            completion.reply@ == completed@.response,
            completion.action == (completed@.action is Some),
    {
        VoiceTurnCompletion {
            reply: user_visible_reply_text(completed),
            action: completed.action.is_some(),
        }
    }
}

/// The time that the context may take: the setting, if it is a number, within
/// its bounds.
pub open spec fn prefetch_timeout(setting: Option<Seq<char>>) -> nat {
    let asked = match setting {
        Some(text) => match parsed(text, u64::MAX as nat) {
            Some(n) => n,
            None => DEFAULT_CONTEXT_PREFETCH_TIMEOUT_MS as nat,
        },
        None => DEFAULT_CONTEXT_PREFETCH_TIMEOUT_MS as nat,
    };
    if asked < 250 {
        250
    } else if asked > 30_000 {
        30_000
    } else {
        asked
    }
}

/// The time that the context may take, in milliseconds.
pub fn context_prefetch_timeout(setting: &Option<String>) -> (ms: u64)
    ensures
        ms == prefetch_timeout(opt_text(*setting)),
        250 <= ms <= 30_000,
{
    let asked: u64 = match setting {
        Some(text) => match parse_u64(text.as_str()) {
            Some(n) => n,
            None => DEFAULT_CONTEXT_PREFETCH_TIMEOUT_MS,
        },
        None => DEFAULT_CONTEXT_PREFETCH_TIMEOUT_MS,
    };
    if asked < 250 {
        250
    } else if asked > 30_000 {
        30_000
    } else {
        asked
    }
}

/// A list as text; `printed` is what was printed of it.
pub open spec fn list_text(printed: Option<Seq<char>>) -> Seq<char> {
    match printed {
        Some(text) => text,
        None => "[]"@,
    }
}

/// What the planner is told, given the lists of errors as text. They are left
/// out where both lists are empty.
pub open spec fn context_text(
    chat: Seq<char>,
    ctx: Seq<char>,
    scratchpads: Seq<char>,
    errors: Option<(Seq<char>, Seq<char>)>,
) -> Seq<char> {
    let known = chat + "\n"@ + ctx + "\n"@ + scratchpads;
    match errors {
        Some((desktop, agent)) => known
            + "\nRuntime context errors visible to the agent:\ndesktop="@ + desktop
            + "\nagent_context="@ + agent,
        None => known,
    }
}

/// What the planner is told, given the lists of errors as text.
pub fn agent_context_text(
    chat: &str,
    ctx: &str,
    scratchpads: &str,
    errors: &Option<(String, String)>,
) -> (text: String)
    ensures
        text@ == context_text(
            chat@,
            ctx@,
            scratchpads@,
            match *errors {
                Some((desktop, agent)) => Some((desktop@, agent@)),
                None => None,
            },
        ),
{
    let mut text = chat.to_owned();
    text.append("\n");
    text.append(ctx);
    text.append("\n");
    text.append(scratchpads);
    if let Some((desktop, agent)) = errors {
        text.append("\nRuntime context errors visible to the agent:\ndesktop=");
        text.append(desktop.as_str());
        text.append("\nagent_context=");
        text.append(agent.as_str());
    }
    text
}

fn printed_list(items: &Vec<String>) -> (text: String)
    ensures
        text@ == list_text(json_printed(texts_view(texts(items@)))),
{
    match print(&Json::text_list(items)) {
        Some(text) => text,
        None => "[]".to_owned(),
    }
}

/// What the planner is told: the chat, the context, the notes, and what could
/// not be found out.
pub fn combined_agent_context(
    chat: &str,
    ctx: &str,
    scratchpads: &str,
    desktop_errors: &Vec<String>,
    agent_context_errors: &Vec<String>,
) -> (text: String)
    ensures
        text@ == context_text(
            chat@,
            ctx@,
            scratchpads@,
            if desktop_errors@.len() == 0 && agent_context_errors@.len() == 0 {
                None
            } else {
                Some(
                    (
                        list_text(json_printed(texts_view(texts(desktop_errors@)))),
                        list_text(json_printed(texts_view(texts(agent_context_errors@)))),
                    ),
                )
            },
        ),
{
    let errors = if desktop_errors.len() == 0 && agent_context_errors.len() == 0 {
        None
    } else {
        Some((printed_list(desktop_errors), printed_list(agent_context_errors)))
    };
    agent_context_text(chat, ctx, scratchpads, &errors)
}

/// The chat, the context and the notes that a turn begins with, and what could
/// not be loaded.
#[derive(Clone, Debug, PartialEq, Eq)]
pub struct KnownContext {
    pub chat: String,
    pub ctx: String,
    pub scratchpads: String,
    pub errors: Vec<String>,
}

/// What stands for the chat where it cannot be read.
pub fn chat_or_error(chat: Result<String, String>) -> (text: String)
    ensures
        text@ == (match chat {
            Ok(chat) => chat@,
            Err(error) => "Recent chat: unavailable. error="@ + error@,
        }),
{
    match chat {
        Ok(chat) => chat,
        Err(error) => concat("Recent chat: unavailable. error=", error.as_str()),
    }
}

/// What a turn begins with where the context could not be loaded: the chat as
/// far as it can be read, and the reason in place of the rest.
pub fn context_unavailable(error: &str, chat: Result<String, String>) -> (known: KnownContext)
    ensures
        known.chat@ == (match chat {
            Ok(chat) => chat@,
            Err(error) => "Recent chat: unavailable. error="@ + error@,
        }),
        known.ctx@ == "Context: unavailable.\nctx_error: "@ + error@,
        known.scratchpads@ == "Scratchpads: unavailable because ctx context load failed."@,
        texts(known.errors@) == seq![error@],
{
    let errors = vec![error.to_owned()];
    assert(texts(errors@) =~= seq![error@]);
    KnownContext {
        chat: chat_or_error(chat),
        ctx: concat("Context: unavailable.\nctx_error: ", error),
        scratchpads: "Scratchpads: unavailable because ctx context load failed.".to_owned(),
        errors,
    }
}

/// How far the look at the desktop got.
#[derive(Clone, Debug, PartialEq, Eq)]
pub enum ContextOutcome {
    /// There is no session.
    NoSession(String),
    /// The look succeeded.
    Seen,
    /// The look failed.
    Failed(String),
    /// The look took too long.
    TimedOut,
}

/// What follows a look at the desktop.
#[derive(Clone, Debug, PartialEq, Eq)]
pub struct ContextStep {
    /// The session can still be used.
    pub keep_session: bool,
    /// Look at the desktop without the frame.
    pub observe: bool,
    /// What could not be found out, and why.
    pub error: Option<String>,
}

/// What is said of a look that did not succeed.
pub open spec fn context_error(outcome: ContextOutcome, timeout_ms: u64) -> Option<Seq<char>> {
    match outcome {
        ContextOutcome::NoSession(error) => Some("session acquire failed: "@ + error@),
        ContextOutcome::Seen => None,
        ContextOutcome::Failed(error) => Some("context snapshot failed: "@ + error@),
        ContextOutcome::TimedOut => Some(
            "context snapshot timed out after "@ + decimal(timeout_ms as nat) + "ms"@,
        ),
    }
}

/// What follows a look at the desktop. A session whose look took too long is
/// not used again; the desktop is then observed without a frame.
pub fn prefetch_context(outcome: &ContextOutcome, timeout_ms: u64) -> (step: ContextStep)
    ensures
        step.keep_session == (*outcome is Seen || *outcome is Failed),
        step.observe == (*outcome is TimedOut),
        opt_text(step.error) == context_error(*outcome, timeout_ms),
{
    match outcome {
        ContextOutcome::NoSession(error) => ContextStep {
            keep_session: false,
            observe: false,
            error: Some(concat("session acquire failed: ", error.as_str())),
        },
        ContextOutcome::Seen => ContextStep { keep_session: true, observe: false, error: None },
        ContextOutcome::Failed(error) => ContextStep {
            keep_session: true,
            observe: false,
            error: Some(concat("context snapshot failed: ", error.as_str())),
        },
        ContextOutcome::TimedOut => {
            let mut error = "context snapshot timed out after ".to_owned();
            error.append(decimal_of(timeout_ms).as_str());
            error.append("ms");
            ContextStep { keep_session: false, observe: true, error: Some(error) }
        },
    }
}

/// What is said where the desktop could not be observed either.
pub fn observe_failed(error: &str) -> (message: String)
    ensures
        message@ == "fallback desktop observe failed: "@ + error@,
{
    concat("fallback desktop observe failed: ", error)
}

/// The errors of a second look, after the first one was lost: that comes first.
pub fn context_join_failed(errors: &mut Vec<String>, error: &str)
    ensures
        texts(final(errors)@) == seq!["context prefetch join failed: "@ + error@] + texts(
            old(errors)@,
        ),
{
    let ghost before = errors@;
    errors.insert(0, concat("context prefetch join failed: ", error));
    assert(texts(errors@) =~= seq!["context prefetch join failed: "@ + error@] + texts(before));
}

/// What follows speech recognition.
#[derive(Clone, Debug, PartialEq, Eq)]
pub enum HeardSpeech {
    /// Nothing was said, or nothing that was understood: the user is told, and
    /// the turn is over.
    Missed { shown: String },
    /// Recognition failed: the turn fails.
    Failed { error: String },
    /// What was said is no command: the user is told, and the turn is over.
    Refused { class: &'static str, shown: String, error: String },
    /// A command, and the label of the step that it begins with.
    Command { text: String, label: String },
}

/// What follows speech recognition.
pub fn heard_speech(result: &Result<SttTranscript, String>) -> (heard: HeardSpeech)
    ensures
        match (*result, heard) {
            (Err(error), HeardSpeech::Missed { shown }) => means_missed_speech(error@) && shown@
                == visible_error(error@),
            (Err(error), HeardSpeech::Failed { error: told }) => !means_missed_speech(error@)
                && told@ == error@,
            (Ok(transcript), HeardSpeech::Refused { class, shown, error }) => {
                &&& class@ == class_of(transcript.text@)
                &&& class@ != "command_candidate"@
                &&& error@ == no_command_message(
                    transcript.model@,
                    opt_text(transcript.generation_id),
                    class@,
                )
                &&& shown@ == visible_error(error@)
            },
            (Ok(transcript), HeardSpeech::Command { text, label }) => {
                &&& class_of(transcript.text@) == "command_candidate"@
                &&& text@ == transcript.text@
                &&& label@ == step_label("transcript"@, transcript.text@)
            },
            _ => false,
        },
{
    match result {
        Err(error) => if is_missed_speech_message(error.as_str()) {
            HeardSpeech::Missed { shown: user_visible_turn_error(error.as_str()) }
        } else {
            HeardSpeech::Failed { error: error.clone() }
        },
        Ok(transcript) => match validate_stt_transcript(transcript) {
            Err(error) => HeardSpeech::Refused {
                class: transcript_class(transcript.text.as_str()),
                shown: user_visible_turn_error(error.as_str()),
                error,
            },
            Ok(_) => HeardSpeech::Command {
                text: transcript.text.clone(),
                label: voice_step_label("transcript", transcript.text.as_str()),
            },
        },
    }
}

/// What is known of a transcript beside its text.
pub open spec fn stt_diagnostic(transcript: SttTranscript) -> EventView {
    EventView::SttDiagnostic {
        backend: transcript.backend@,
        model: transcript.model@,
        generation_id: opt_text(transcript.generation_id),
        audio_ms: transcript.audio_ms,
        transcript_class: class_of(transcript.text@),
    }
}

/// What the island is told of a transcript.
pub fn stt_diagnostic_event(transcript: &SttTranscript) -> (event: VoiceUiEvent)
    ensures
        event@ == stt_diagnostic(*transcript),
{
    VoiceUiEvent::SttDiagnostic {
        backend: transcript.backend.clone(),
        model: transcript.model.clone(),
        generation_id: match &transcript.generation_id {
            Some(id) => Some(id.clone()),
            None => None,
        },
        audio_ms: transcript.audio_ms,
        transcript_class: transcript_class(transcript.text.as_str()).to_owned(),
    }
}

/// What the island is told once speech recognition is over: of a transcript what
/// is known of it, and then the command, or why there is none. An error that
/// fails the turn is told with the turn.
pub open spec fn told_of_speech(result: Result<SttTranscript, String>) -> Seq<EventView> {
    match result {
        Ok(transcript) => if class_of(transcript.text@) == "command_candidate"@ {
            seq![
                stt_diagnostic(transcript),
                EventView::Accepted,
                EventView::Transcript(transcript.text@),
            ]
        } else {
            let error = no_command_message(
                transcript.model@,
                opt_text(transcript.generation_id),
                class_of(transcript.text@),
            );
            seq![stt_diagnostic(transcript), EventView::Error(visible_error(error))]
        },
        Err(error) => if means_missed_speech(error@) {
            seq![EventView::Error(visible_error(error@))]
        } else {
            Seq::empty()
        },
    }
}

/// What the island is told once speech recognition is over.
pub fn speech_events(result: &Result<SttTranscript, String>) -> (events: Vec<VoiceUiEvent>)
    ensures
        event_views(events@) == told_of_speech(*result),
{
    let mut events: Vec<VoiceUiEvent> = Vec::new();
    if let Ok(transcript) = result {
        events.push(stt_diagnostic_event(transcript));
    }
    match heard_speech(result) {
        HeardSpeech::Command { text, .. } => {
            events.push(VoiceUiEvent::Accepted);
            events.push(VoiceUiEvent::Transcript(text));
        },
        HeardSpeech::Refused { shown, .. } | HeardSpeech::Missed { shown } => {
            events.push(VoiceUiEvent::Error(shown));
        },
        HeardSpeech::Failed { .. } => {},
    }
    assert(event_views(events@) =~= told_of_speech(*result));
    events
}

/// What the user is told of speech is the same whether it was missed by the
/// recognizer or refused afterwards.
pub proof fn lemma_missed_speech_is_told_alike(transcript: SttTranscript, error: String)
    requires
        class_of(transcript.text@) != "command_candidate"@,
        means_missed_speech(error@),
    ensures
        told_of_speech(Ok(transcript)).last() == told_of_speech(Err(error)).last(),
        told_of_speech(Err(error)).last() == EventView::Error("Didn't catch a command."@),
{
    crate::failure::lemma_refused_transcript_is_missed_speech(
        transcript.model@,
        opt_text(transcript.generation_id),
        class_of(transcript.text@),
    );
}

/// Where a recording comes from, and its mean loudness in millionths.
#[derive(Clone, Debug, PartialEq, Eq)]
pub struct RecordingSource {
    pub device_name: String,
    pub channels: u16,
    pub sample_format: String,
    pub rms_amplitude_ppm: u32,
}

/// What is known of a recording.
pub open spec fn audio_diagnostic(audio: RecordedAudio, source: RecordingSource) -> EventView {
    EventView::AudioDiagnostic {
        device_name: source.device_name@,
        channels: source.channels,
        sample_format: source.sample_format@,
        sample_rate: audio.sample_rate,
        duration_ms: whole_millis(audio.stats.duration),
        peak_amplitude: audio.stats.peak_amplitude,
        rms_amplitude_ppm: source.rms_amplitude_ppm,
        wav_bytes: audio.wav_bytes@.len() as u64,
    }
}

/// What the island is told of a recording.
pub fn audio_diagnostic_event(audio: &RecordedAudio, source: &RecordingSource) -> (event:
    VoiceUiEvent)
    ensures
        event@ == audio_diagnostic(*audio, *source),
{
    VoiceUiEvent::AudioDiagnostic {
        device_name: source.device_name.clone(),
        channels: source.channels,
        sample_format: source.sample_format.clone(),
        sample_rate: audio.sample_rate,
        duration_ms: as_millis(audio.stats.duration),
        peak_amplitude: audio.stats.peak_amplitude,
        rms_amplitude_ppm: source.rms_amplitude_ppm,
        wav_bytes: audio.wav_bytes.len() as u64,
    }
}

/// What follows a recording: the island is told that it is over, and, if it is
/// long enough for a command, what is known of it. A recording that is too short
/// fails the turn.
pub fn recording_finished(audio: &RecordedAudio, source: &RecordingSource) -> (finished: (
    Vec<VoiceUiEvent>,
    Result<(), String>,
))
    ensures
        event_views(finished.0@) == (if audio.stats.duration >= MIN_RECORDING {
            seq![EventView::RecordingStopped, audio_diagnostic(*audio, *source)]
        } else {
            seq![EventView::RecordingStopped]
        }),
        match finished.1 {
            Ok(_) => audio.stats.duration >= MIN_RECORDING,
            Err(message) => audio.stats.duration < MIN_RECORDING && message@
                == "recording was too short to contain a clear command"@,
        },
{
    let mut events: Vec<VoiceUiEvent> = Vec::new();
    events.push(VoiceUiEvent::RecordingStopped);
    let result = validate_recorded_audio(audio.stats.duration);
    if result.is_ok() {
        events.push(audio_diagnostic_event(audio, source));
        assert(event_views(events@) =~= seq![
            EventView::RecordingStopped,
            audio_diagnostic(*audio, *source),
        ]);
    } else {
        assert(event_views(events@) =~= seq![EventView::RecordingStopped]);
    }
    (events, result)
}

/// Milliseconds, as many as sixty-four bits hold.
pub open spec fn capped_ms(ms: u128) -> u64 {
    if ms > u64::MAX {
        u64::MAX
    } else {
        ms as u64
    }
}

/// Milliseconds, as many as sixty-four bits hold.
pub fn elapsed_ms(ms: u128) -> (result: u64)
    ensures
        result == capped_ms(ms),
{
    if ms > u64::MAX as u128 {
        u64::MAX
    } else {
        ms as u64
    }
}

/// How long something took, for the island.
pub fn metric_event(name: &str, ms: u128) -> (event: VoiceUiEvent)
    ensures
        event@ == (EventView::Metric { name: name@, ms: capped_ms(ms) }),
{
    VoiceUiEvent::Metric { name: name.to_owned(), ms: elapsed_ms(ms) }
}

/// The context is waited for as long as the number that is set, within its
/// bounds; other text and no setting give the default.
pub proof fn lemma_context_wait_is_as_set(n: nat, other: Seq<char>)
    ensures
        250 <= n <= 30_000 ==> prefetch_timeout(Some(decimal(n))) == n,
        n < 250 ==> prefetch_timeout(Some(decimal(n))) == 250,
        30_000 < n <= u64::MAX ==> prefetch_timeout(Some(decimal(n))) == 30_000,
        prefetch_timeout(None) == 2_500,
        parsed(other, u64::MAX as nat) is None ==> prefetch_timeout(Some(other)) == 2_500,
{
    lemma_number_is_read_back(n, u64::MAX as nat);
}

/// The context has the chat, the memory and the notes in this order, each on a
/// line of its own, and the errors behind them.
pub proof fn lemma_context_has_every_part(
    chat: Seq<char>,
    ctx: Seq<char>,
    scratchpads: Seq<char>,
    desktop: Seq<char>,
    agent: Seq<char>,
)
    ensures
        context_text(chat, ctx, scratchpads, None) == chat + seq!['\n'] + ctx + seq!['\n']
            + scratchpads,
        starts_with(
            context_text(chat, ctx, scratchpads, Some((desktop, agent))),
            context_text(chat, ctx, scratchpads, None),
        ),
        ends_with(
            context_text(chat, ctx, scratchpads, Some((desktop, agent))),
            "\nagent_context="@ + agent,
        ),
        has_text(
            context_text(chat, ctx, scratchpads, Some((desktop, agent))),
            "desktop="@ + desktop,
        ),
{
    reveal_strlit("\n");
    reveal_strlit("desktop=");
    reveal_strlit("\nRuntime context errors visible to the agent:\ndesktop=");
    assert("\n"@ =~= seq!['\n']);
    let known = context_text(chat, ctx, scratchpads, None);
    let whole = context_text(chat, ctx, scratchpads, Some((desktop, agent)));
    let head = "\nRuntime context errors visible to the agent:\ndesktop="@;
    let tail = "\nagent_context="@ + agent;
    assert(whole =~= known + head + desktop + tail);
    assert(whole.subrange(0, known.len() as int) =~= known);
    let end = whole.len() - tail.len();
    assert(whole.subrange(end, end + tail.len()) =~= tail);
    let part = "desktop="@ + desktop;
    let at = known.len() + head.len() - 8;
    assert(whole.subrange(at, at + part.len()) =~= part);
    assert(occurs_at(whole, part, at));
}

/// A context that was seen has no error; one that was not seen has the error that
/// is told.
pub proof fn lemma_context_error_is_told(told: String, timeout_ms: u64)
    ensures
        context_error(ContextOutcome::Seen, timeout_ms) is None,
        context_error(ContextOutcome::NoSession(told), timeout_ms) matches Some(error) && ends_with(
            error,
            told@,
        ),
        context_error(ContextOutcome::Failed(told), timeout_ms) matches Some(error) && ends_with(
            error,
            told@,
        ),
        context_error(ContextOutcome::NoSession(told), timeout_ms) != context_error(
            ContextOutcome::Failed(told),
            timeout_ms,
        ),
        context_error(ContextOutcome::TimedOut, timeout_ms) matches Some(error) && has_text(
            error,
            decimal(timeout_ms as nat) + "ms"@,
        ),
{
    let first = "session acquire failed: "@;
    let second = "context snapshot failed: "@;
    reveal_strlit("session acquire failed: ");
    reveal_strlit("context snapshot failed: ");
    assert((first + told@)[0] != (second + told@)[0]);
    let n = first.len() as int;
    assert((first + told@).subrange(n, n + told@.len()) =~= told@);
    let m = second.len() as int;
    assert((second + told@).subrange(m, m + told@.len()) =~= told@);
    let start = "context snapshot timed out after "@;
    let part = decimal(timeout_ms as nat) + "ms"@;
    let whole = start + decimal(timeout_ms as nat) + "ms"@;
    let k = start.len() as int;
    assert(whole.subrange(k, k + part.len()) =~= part);
    assert(occurs_at(whole, part, k));
}

/// Speech that is a command is accepted and shown as it was heard; speech that is
/// none is never accepted.
pub proof fn lemma_only_commands_are_accepted(result: Result<SttTranscript, String>)
    ensures
        result matches Ok(transcript) ==> {
            &&& told_of_speech(result)[0] == stt_diagnostic(transcript)
            &&& class_of(transcript.text@) == "command_candidate"@ ==> told_of_speech(result).skip(
                1,
            ) == seq![EventView::Accepted, EventView::Transcript(transcript.text@)]
            &&& class_of(transcript.text@) != "command_candidate"@ ==> told_of_speech(
                result,
            ).len() == 2 && told_of_speech(result)[1] is Error
        },
        result matches Err(error) ==> {
            &&& means_missed_speech(error@) ==> told_of_speech(result).len() == 1
                && told_of_speech(result)[0] is Error
            &&& !means_missed_speech(error@) ==> told_of_speech(result).len() == 0
        },
        stt_diagnostic_tells(result),
{
    if let Ok(transcript) = result {
        if class_of(transcript.text@) == "command_candidate"@ {
            assert(told_of_speech(result).skip(1) =~= seq![
                EventView::Accepted,
                EventView::Transcript(transcript.text@),
            ]);
        }
    }
}

/// The first event of heard speech tells who heard it, and what sort of speech it
/// was.
pub open spec fn stt_diagnostic_tells(result: Result<SttTranscript, String>) -> bool {
    match result {
        Ok(transcript) => told_of_speech(result)[0] matches EventView::SttDiagnostic {
            backend,
            model,
            generation_id,
            audio_ms,
            transcript_class,
        } && backend == transcript.backend@ && model == transcript.model@ && generation_id
            == opt_text(transcript.generation_id) && audio_ms == transcript.audio_ms
            && transcript_class == class_of(transcript.text@),
        Err(_) => true,
    }
}

/// A recording is described by its device and by what was recorded.
pub proof fn lemma_recording_is_described(audio: RecordedAudio, source: RecordingSource)
    ensures
        audio_diagnostic(audio, source) matches EventView::AudioDiagnostic {
            device_name,
            channels,
            sample_format,
            sample_rate,
            duration_ms,
            peak_amplitude,
            rms_amplitude_ppm,
            wav_bytes,
        } && device_name == source.device_name@ && channels == source.channels && sample_format
            == source.sample_format@ && sample_rate == audio.sample_rate && peak_amplitude
            == audio.stats.peak_amplitude && rms_amplitude_ppm == source.rms_amplitude_ppm
            && wav_bytes == audio.wav_bytes@.len() as u64 && (audio.stats.duration <= u64::MAX
            ==> duration_ms * 1_000_000 <= audio.stats.duration < (duration_ms + 1) * 1_000_000),
{
}

/// A number of milliseconds stays as it is as long as it can be held.
pub proof fn lemma_time_is_not_cut(ms: u64, longer: u128)
    ensures
        capped_ms(ms as u128) == ms,
        longer > u64::MAX ==> capped_ms(longer) == u64::MAX,
{
}

} // verus!
