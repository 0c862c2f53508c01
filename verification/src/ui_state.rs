//! What the island shows: the events of a turn, and the snapshot that they
//! leave behind.

use vstd::prelude::*;

use crate::scene::{IslandBackground, IslandScene, IslandTheme};
use crate::text::{opt_text, same};

verus! {

/// Whether the island is on the screen.
#[derive(Clone, Copy, Debug, PartialEq, Eq, Structural)]
pub enum UiMode {
    Headful,
    Headless,
}

/// What the agent is doing.
#[derive(Clone, Copy, Debug, PartialEq, Eq, Structural)]
pub enum HudPhase {
    Idle,
    Armed,
    Listening,
    RecordingStopped,
    Accepted,
    Transcribing,
    Planning,
    Dispatching,
    Reply,
    Error,
}

pub open spec fn phase_label(phase: HudPhase) -> Seq<char> {
    match phase {
        HudPhase::Idle => "Idle"@,
        HudPhase::Armed => "Armed"@,
        HudPhase::Listening => "Listening"@,
        HudPhase::RecordingStopped => "Recording Stopped"@,
        HudPhase::Accepted => "Accepted"@,
        HudPhase::Transcribing => "Transcribing"@,
        HudPhase::Planning => "Planning"@,
        HudPhase::Dispatching => "Dispatching"@,
        HudPhase::Reply => "Reply"@,
        HudPhase::Error => "Error"@,
    }
}

impl HudPhase {
    /// The name of the phase.
    pub fn label(self) -> (label: &'static str)
        ensures
            label@ == phase_label(self),
    {
        match self {
            HudPhase::Idle => "Idle",
            HudPhase::Armed => "Armed",
            HudPhase::Listening => "Listening",
            HudPhase::RecordingStopped => "Recording Stopped",
            HudPhase::Accepted => "Accepted",
            HudPhase::Transcribing => "Transcribing",
            HudPhase::Planning => "Planning",
            HudPhase::Dispatching => "Dispatching",
            HudPhase::Reply => "Reply",
            HudPhase::Error => "Error",
        }
    }
}

/// The step that is shown, and its place among the steps.
#[derive(Clone, Debug, PartialEq, Eq)]
pub struct HudStep {
    pub label: String,
    pub index: Option<u16>,
    pub total: Option<u16>,
}

#[verifier::ext_equal]
pub struct StepView {
    pub label: Seq<char>,
    pub index: Option<u16>,
    pub total: Option<u16>,
}

impl View for HudStep {
    type V = StepView;

    open spec fn view(&self) -> StepView {
        StepView { label: self.label@, index: self.index, total: self.total }
    }
}

impl StepView {
    /// The place of the step, where both numbers are known.
    pub open spec fn place(self) -> Option<(u16, u16)> {
        match (self.index, self.total) {
            (Some(index), Some(total)) => Some((index, total)),
            _ => None,
        }
    }
}

impl HudStep {
    /// The place of the step, where both numbers are known.
    pub fn counter(&self) -> (place: Option<(u16, u16)>)
        ensures
            place == self@.place(),
    {
        match (self.index, self.total) {
            (Some(index), Some(total)) => Some((index, total)),
            _ => None,
        }
    }
}

/// What happens in a turn, as the island is told.
#[derive(Debug)]
pub enum VoiceUiEvent {
    Armed,
    Listening { ms: u64 },
    RecordingStopped,
    Accepted,
    Transcribing,
    Transcript(String),
    Planning { tool: String },
    Dispatching(String),
    AgentStep {
        label: String,
        source: Option<String>,
        task: Option<String>,
        tool: Option<String>,
        step_index: Option<u16>,
        step_total: Option<u16>,
        ttl_ms: Option<u64>,
    },
    UiMode { mode: UiMode, source: Option<String> },
    AutomationActivity { label: String, source: Option<String>, tool: Option<String> },
    Reply(String),
    AutomationReply(String),
    Error(String),
    AudioDiagnostic {
        device_name: String,
        channels: u16,
        sample_format: String,
        sample_rate: u32,
        duration_ms: u64,
        peak_amplitude: u16,
        rms_amplitude_ppm: u32,
        wav_bytes: u64,
    },
    SttDiagnostic {
        backend: String,
        model: String,
        generation_id: Option<String>,
        audio_ms: Option<u64>,
        transcript_class: String,
    },
    Metric { name: String, ms: u64 },
    SceneSet(IslandScene),
    SceneReset,
    SceneTheme(IslandTheme),
    SceneBackground(IslandBackground),
    ToggleExpanded,
    SetExpanded(bool),
    SetMinimized(bool),
    Idle,
}

/// What an event means.
pub enum EventView {
    Armed,
    Listening { ms: u64 },
    RecordingStopped,
    Accepted,
    Transcribing,
    Transcript(Seq<char>),
    Planning { tool: Seq<char> },
    Dispatching(Seq<char>),
    AgentStep {
        label: Seq<char>,
        source: Option<Seq<char>>,
        task: Option<Seq<char>>,
        tool: Option<Seq<char>>,
        step_index: Option<u16>,
        step_total: Option<u16>,
        ttl_ms: Option<u64>,
    },
    UiMode { mode: UiMode, source: Option<Seq<char>> },
    AutomationActivity {
        label: Seq<char>,
        source: Option<Seq<char>>,
        tool: Option<Seq<char>>,
    },
    Reply(Seq<char>),
    AutomationReply(Seq<char>),
    Error(Seq<char>),
    AudioDiagnostic {
        device_name: Seq<char>,
        channels: u16,
        sample_format: Seq<char>,
        sample_rate: u32,
        duration_ms: u64,
        peak_amplitude: u16,
        rms_amplitude_ppm: u32,
        wav_bytes: u64,
    },
    SttDiagnostic {
        backend: Seq<char>,
        model: Seq<char>,
        generation_id: Option<Seq<char>>,
        audio_ms: Option<u64>,
        transcript_class: Seq<char>,
    },
    Metric { name: Seq<char>, ms: u64 },
    SceneSet(IslandScene),
    SceneReset,
    SceneTheme(IslandTheme),
    SceneBackground(IslandBackground),
    ToggleExpanded,
    SetExpanded(bool),
    SetMinimized(bool),
    Idle,
}

impl View for VoiceUiEvent {
    type V = EventView;

    open spec fn view(&self) -> EventView {
        match *self {
            VoiceUiEvent::Armed => EventView::Armed,
            VoiceUiEvent::Listening { ms } => EventView::Listening { ms },
            VoiceUiEvent::RecordingStopped => EventView::RecordingStopped,
            VoiceUiEvent::Accepted => EventView::Accepted,
            VoiceUiEvent::Transcribing => EventView::Transcribing,
            VoiceUiEvent::Transcript(text) => EventView::Transcript(text@),
            VoiceUiEvent::Planning { tool } => EventView::Planning { tool: tool@ },
            VoiceUiEvent::Dispatching(action) => EventView::Dispatching(action@),
            VoiceUiEvent::AgentStep {
                label,
                source,
                task,
                tool,
                step_index,
                step_total,
                ttl_ms,
            } => EventView::AgentStep {
                label: label@,
                source: opt_text(source),
                task: opt_text(task),
                tool: opt_text(tool),
                step_index,
                step_total,
                ttl_ms,
            },
            VoiceUiEvent::UiMode { mode, source } => EventView::UiMode {
                mode,
                source: opt_text(source),
            },
            VoiceUiEvent::AutomationActivity { label, source, tool } =>
            EventView::AutomationActivity {
                label: label@,
                source: opt_text(source),
                tool: opt_text(tool),
            },
            VoiceUiEvent::Reply(text) => EventView::Reply(text@),
            VoiceUiEvent::AutomationReply(text) => EventView::AutomationReply(text@),
            VoiceUiEvent::Error(text) => EventView::Error(text@),
            VoiceUiEvent::AudioDiagnostic {
                device_name,
                channels,
                sample_format,
                sample_rate,
                duration_ms,
                peak_amplitude,
                rms_amplitude_ppm,
                wav_bytes,
            } => EventView::AudioDiagnostic {
                device_name: device_name@,
                channels,
                sample_format: sample_format@,
                sample_rate,
                duration_ms,
                peak_amplitude,
                rms_amplitude_ppm,
                wav_bytes,
            },
            VoiceUiEvent::SttDiagnostic {
                backend,
                model,
                generation_id,
                audio_ms,
                transcript_class,
            } => EventView::SttDiagnostic {
                backend: backend@,
                model: model@,
                generation_id: opt_text(generation_id),
                audio_ms,
                transcript_class: transcript_class@,
            },
            VoiceUiEvent::Metric { name, ms } => EventView::Metric { name: name@, ms },
            VoiceUiEvent::SceneSet(scene) => EventView::SceneSet(scene),
            VoiceUiEvent::SceneReset => EventView::SceneReset,
            VoiceUiEvent::SceneTheme(theme) => EventView::SceneTheme(theme),
            VoiceUiEvent::SceneBackground(background) => EventView::SceneBackground(background),
            VoiceUiEvent::ToggleExpanded => EventView::ToggleExpanded,
            VoiceUiEvent::SetExpanded(expanded) => EventView::SetExpanded(expanded),
            VoiceUiEvent::SetMinimized(minimized) => EventView::SetMinimized(minimized),
            VoiceUiEvent::Idle => EventView::Idle,
        }
    }
}

pub open spec fn event_views(events: Seq<VoiceUiEvent>) -> Seq<EventView> {
    Seq::new(events.len(), |i: int| events[i]@)
}


/// What the island shows.
#[derive(Clone, Debug, PartialEq, Eq)]
pub struct HudSnapshot {
    pub transcript: Option<String>,
    pub response: Option<String>,
    pub step: HudStep,
    pub input_label: String,
    pub phase: HudPhase,
    pub tool: String,
    pub task: String,
    pub mode: UiMode,
}

#[verifier::ext_equal]
pub struct SnapshotView {
    pub transcript: Option<Seq<char>>,
    pub response: Option<Seq<char>>,
    pub step: StepView,
    pub input_label: Seq<char>,
    pub phase: HudPhase,
    pub tool: Seq<char>,
    pub task: Seq<char>,
    pub mode: UiMode,
}

impl View for HudSnapshot {
    type V = SnapshotView;

    open spec fn view(&self) -> SnapshotView {
        SnapshotView {
            transcript: opt_text(self.transcript),
            response: opt_text(self.response),
            step: self.step@,
            input_label: self.input_label@,
            phase: self.phase,
            tool: self.tool@,
            task: self.task@,
            mode: self.mode,
        }
    }
}

/// What the island shows when nothing goes on.
pub open spec fn idle_snapshot() -> SnapshotView {
    SnapshotView {
        transcript: None,
        response: None,
        step: StepView { label: "Ready"@, index: None, total: None },
        input_label: "Voice control"@,
        phase: HudPhase::Idle,
        tool: "cua"@,
        task: "Voice control"@,
        mode: UiMode::Headful,
    }
}

impl Default for HudSnapshot {
    fn default() -> (snapshot: HudSnapshot)
        ensures
            snapshot@ == idle_snapshot(),
    {
        HudSnapshot {
            transcript: None,
            response: None,
            step: HudStep { label: "Ready".to_owned(), index: None, total: None },
            input_label: "Voice control".to_owned(),
            phase: HudPhase::Idle,
            tool: "cua".to_owned(),
            task: "Voice control".to_owned(),
            mode: UiMode::Headful,
        }
    }
}

pub open spec fn plain_step(label: Seq<char>) -> StepView {
    StepView { label, index: None, total: None }
}

/// `new`, or `old` where there is none.
pub open spec fn or_old(new: Option<Seq<char>>, old_value: Seq<char>) -> Seq<char> {
    match new {
        Some(value) => value,
        None => old_value,
    }
}

/// What the island shows after an event.
pub open spec fn after_event(s: SnapshotView, event: EventView) -> SnapshotView {
    match event {
        EventView::Armed => SnapshotView {
            transcript: None,
            response: None,
            step: plain_step("Armed"@),
            phase: HudPhase::Armed,
            ..s
        },
        EventView::Listening { ms } => SnapshotView {
            step: plain_step("Listening"@),
            phase: HudPhase::Listening,
            tool: "Microphone"@,
            ..s
        },
        EventView::RecordingStopped => SnapshotView {
            step: plain_step("Recording Stopped"@),
            phase: HudPhase::RecordingStopped,
            ..s
        },
        EventView::Accepted => SnapshotView {
            step: plain_step("Accepted"@),
            phase: HudPhase::Accepted,
            ..s
        },
        EventView::Transcribing => SnapshotView {
            step: plain_step("Processing"@),
            phase: HudPhase::Transcribing,
            tool: "STT"@,
            ..s
        },
        EventView::Transcript(text) => SnapshotView { transcript: Some(text), ..s },
        EventView::Planning { tool } => SnapshotView {
            step: plain_step("Choosing action"@),
            phase: HudPhase::Planning,
            tool,
            ..s
        },
        EventView::Dispatching(action) => SnapshotView {
            step: plain_step(action),
            phase: HudPhase::Dispatching,
            tool: "Unix socket"@,
            ..s
        },
        EventView::AgentStep { label, source, task, tool, step_index, step_total, ttl_ms } =>
        SnapshotView {
            step: StepView { label, index: step_index, total: step_total },
            input_label: "Automation"@,
            phase: HudPhase::Dispatching,
            tool: or_old(tool, s.tool),
            task: or_old(task, s.task),
            ..s
        },
        EventView::UiMode { mode, source } => SnapshotView {
            mode,
            input_label: if source == Some("voice"@) {
                "Voice control"@
            } else {
                "Automation"@
            },
            ..s
        },
        EventView::AutomationActivity { label, source, tool } => SnapshotView {
            step: plain_step(label),
            input_label: "Automation"@,
            phase: HudPhase::Dispatching,
            tool: or_old(tool, s.tool),
            task: or_old(source, s.task),
            ..s
        },
        EventView::Reply(text) => SnapshotView {
            response: Some(text),
            phase: HudPhase::Reply,
            ..s
        },
        EventView::AutomationReply(text) => SnapshotView {
            response: Some(text),
            input_label: "Automation"@,
            phase: HudPhase::Reply,
            ..s
        },
        EventView::Error(text) => SnapshotView {
            response: Some(text),
            step: plain_step(text),
            phase: HudPhase::Error,
            ..s
        },
        EventView::Idle => SnapshotView { mode: s.mode, ..idle_snapshot() },
        _ => s,
    }
}

fn plain(label: &str) -> (step: HudStep)
    ensures
        step@ == plain_step(label@),
{
    HudStep { label: label.to_owned(), index: None, total: None }
}

impl HudSnapshot {
    /// Takes up an event.
    pub fn apply(&mut self, event: VoiceUiEvent)
        ensures
            final(self)@ == after_event(old(self)@, event@),
    {
        match event {
            VoiceUiEvent::Armed => {
                self.transcript = None;
                self.response = None;
                self.step = plain("Armed");
                self.phase = HudPhase::Armed;
            },
            VoiceUiEvent::Listening { ms: _ } => {
                self.step = plain("Listening");
                self.phase = HudPhase::Listening;
                self.tool = "Microphone".to_owned();
            },
            VoiceUiEvent::RecordingStopped => {
                self.step = plain("Recording Stopped");
                self.phase = HudPhase::RecordingStopped;
            },
            VoiceUiEvent::Accepted => {
                self.step = plain("Accepted");
                self.phase = HudPhase::Accepted;
            },
            VoiceUiEvent::Transcribing => {
                self.step = plain("Processing");
                self.phase = HudPhase::Transcribing;
                self.tool = "STT".to_owned();
            },
            VoiceUiEvent::Transcript(text) => {
                self.transcript = Some(text);
            },
            VoiceUiEvent::Planning { tool } => {
                self.step = plain("Choosing action");
                self.phase = HudPhase::Planning;
                self.tool = tool;
            },
            VoiceUiEvent::Dispatching(action) => {
                self.step = HudStep { label: action, index: None, total: None };
                self.phase = HudPhase::Dispatching;
                self.tool = "Unix socket".to_owned();
            },
            VoiceUiEvent::AgentStep {
                label,
                source: _,
                task,
                tool,
                step_index,
                step_total,
                ttl_ms: _,
            } => {
                self.step = HudStep { label, index: step_index, total: step_total };
                self.input_label = "Automation".to_owned();
                self.phase = HudPhase::Dispatching;
                if let Some(tool) = tool {
                    self.tool = tool;
                }
                if let Some(task) = task {
                    self.task = task;
                }
            },
            VoiceUiEvent::UiMode { mode, source } => {
                let voice = match &source {
                    Some(source) => same(source.as_str(), "voice"),
                    None => false,
                };
                self.mode = mode;
                self.input_label = (if voice {
                    "Voice control"
                } else {
                    "Automation"
                }).to_owned();
            },
            VoiceUiEvent::AutomationActivity { label, source, tool } => {
                self.step = HudStep { label, index: None, total: None };
                self.input_label = "Automation".to_owned();
                self.phase = HudPhase::Dispatching;
                if let Some(tool) = tool {
                    self.tool = tool;
                }
                if let Some(source) = source {
                    self.task = source;
                }
            },
            VoiceUiEvent::Reply(text) => {
                self.response = Some(text);
                self.phase = HudPhase::Reply;
            },
            VoiceUiEvent::AutomationReply(text) => {
                self.response = Some(text);
                self.input_label = "Automation".to_owned();
                self.phase = HudPhase::Reply;
            },
            VoiceUiEvent::Error(text) => {
                self.step = plain(text.as_str());
                self.response = Some(text);
                self.phase = HudPhase::Error;
            },
            VoiceUiEvent::Idle => {
                let mode = self.mode;
                *self = HudSnapshot::default();
                self.mode = mode;
            },
            _ => {},
        }
    }
}

/// Only a new turn, a transcript and the end of a turn change the transcript that
/// is shown; only a new turn, a reply, an error and the end change the reply.
pub proof fn lemma_what_was_said_stays(s: SnapshotView, event: EventView)
    ensures
        !(event is Armed || event is Transcript || event is Idle) ==> after_event(
            s,
            event,
        ).transcript == s.transcript,
        !(event is Armed || event is Reply || event is AutomationReply || event is Error
            || event is Idle) ==> after_event(s, event).response == s.response,
        !(event is UiMode) ==> after_event(s, event).mode == s.mode,
        !(event is AgentStep || event is AutomationActivity || event is Idle) ==> after_event(
            s,
            event,
        ).task == s.task,
        event is AudioDiagnostic || event is SttDiagnostic || event is Metric || event is SceneSet
            || event is SceneReset || event is SceneTheme || event is SceneBackground
            || event is ToggleExpanded || event is SetExpanded || event is SetMinimized
            ==> after_event(s, event) == s,
{
}

/// A new turn forgets what was said and answered; what is said, answered or goes
/// wrong is shown as it is, and the end of a turn leaves the island at rest.
pub proof fn lemma_turn_is_shown(s: SnapshotView, text: Seq<char>)
    ensures
        after_event(s, EventView::Armed).transcript is None,
        after_event(s, EventView::Armed).response is None,
        after_event(s, EventView::Transcript(text)).transcript == Some(text),
        after_event(s, EventView::Transcript(text)).phase == s.phase,
        after_event(s, EventView::Reply(text)).response == Some(text),
        after_event(s, EventView::AutomationReply(text)).response == Some(text),
        after_event(s, EventView::Error(text)).response == Some(text),
        after_event(s, EventView::Error(text)).step.label == text,
        after_event(s, EventView::Dispatching(text)).step.label == text,
        after_event(s, EventView::Planning { tool: text }).tool == text,
        after_event(s, EventView::Idle).transcript is None,
        after_event(s, EventView::Idle).response is None,
        after_event(s, EventView::Idle).mode == s.mode,
        after_event(after_event(s, EventView::Idle), EventView::Idle) == after_event(
            s,
            EventView::Idle,
        ),
{
}

/// Each event of a turn shows the phase that it begins.
pub proof fn lemma_phase_follows_the_event(s: SnapshotView, event: EventView)
    ensures
        event is Armed ==> after_event(s, event).phase == HudPhase::Armed,
        event is Listening ==> after_event(s, event).phase == HudPhase::Listening,
        event is RecordingStopped ==> after_event(s, event).phase == HudPhase::RecordingStopped,
        event is Accepted ==> after_event(s, event).phase == HudPhase::Accepted,
        event is Transcribing ==> after_event(s, event).phase == HudPhase::Transcribing,
        event is Planning ==> after_event(s, event).phase == HudPhase::Planning,
        event is Dispatching || event is AgentStep || event is AutomationActivity ==> after_event(
            s,
            event,
        ).phase == HudPhase::Dispatching,
        event is Reply || event is AutomationReply ==> after_event(s, event).phase
            == HudPhase::Reply,
        event is Error ==> after_event(s, event).phase == HudPhase::Error,
        event is Idle ==> after_event(s, event).phase == HudPhase::Idle,
        event is Transcript || event is UiMode ==> after_event(s, event).phase == s.phase,
{
}

/// A step of the agent is shown with its place; it names the tool and the task
/// where it knows them, and else leaves them.
pub proof fn lemma_step_is_shown(
    s: SnapshotView,
    label: Seq<char>,
    tool: Option<Seq<char>>,
    task: Option<Seq<char>>,
    index: Option<u16>,
    total: Option<u16>,
    ttl_ms: Option<u64>,
)
    ensures
        ({
            let after = after_event(
                s,
                EventView::AgentStep {
                    label,
                    source: None,
                    task,
                    tool,
                    step_index: index,
                    step_total: total,
                    ttl_ms,
                },
            );
            &&& after.step.label == label
            &&& index is Some && total is Some ==> after.step.place() == Some(
                (index->0, total->0),
            )
            &&& index is None || total is None ==> after.step.place() is None
            &&& tool is Some ==> Some(after.tool) == tool
            &&& tool is None ==> after.tool == s.tool
            &&& task is Some ==> Some(after.task) == task
            &&& task is None ==> after.task == s.task
        }),
{
}

/// Voice control is named where the voice set the mode, and automation else.
pub proof fn lemma_mode_names_its_source(s: SnapshotView, mode: UiMode, source: Seq<char>)
    ensures
        after_event(s, EventView::UiMode { mode, source: Some("voice"@) }).input_label
            == "Voice control"@,
        source != "voice"@ ==> after_event(
            s,
            EventView::UiMode { mode, source: Some(source) },
        ).input_label == "Automation"@,
        after_event(s, EventView::UiMode { mode, source: None }).input_label == "Automation"@,
        after_event(s, EventView::UiMode { mode, source: Some(source) }).mode == mode,
{
}

} // verus!
