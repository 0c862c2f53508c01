//! Events as lines of JSON, for a run without a window.

use vstd::prelude::*;

use crate::json::{
    empty_object, field, flag_field, nat_view, number_field, opt_nat_view, opt_text_view,
    text_field, text_view, with_field, Json, JsonView,
};
use crate::json_text::{json_printed, print};
use crate::text::opt_text;
use crate::ui_state::{EventView, UiMode, VoiceUiEvent};

verus! {

pub open spec fn mode_name(mode: UiMode) -> Seq<char> {
    match mode {
        UiMode::Headful => "headful"@,
        UiMode::Headless => "headless"@,
    }
}

/// The name of a mode.
pub fn ui_mode_name(mode: UiMode) -> (name: &'static str)
    ensures
        name@ == mode_name(mode),
{
    match mode {
        UiMode::Headful => "headful",
        UiMode::Headless => "headless",
    }
}

pub open spec fn opt_place_view(place: Option<u16>) -> JsonView {
    match place {
        Some(n) => nat_view(n as u64),
        None => JsonView::Null,
    }
}

fn place_json(place: Option<u16>) -> (value: Json)
    ensures
        value@ == opt_place_view(place),
{
    match place {
        Some(n) => Json::number(n as u64),
        None => Json::Null,
    }
}

/// An object with the name of an event.
pub open spec fn named(name: Seq<char>) -> JsonView {
    with_field(empty_object(), "event"@, text_view(name))
}

fn event_object(name: &str) -> (value: Json)
    ensures
        value@ == named(name@),
{
    let mut value = Json::object();
    value.set("event", Json::text(name));
    value
}

/// An event as JSON. `payload` is the scene, the theme or the background of an
/// event that carries one.
pub open spec fn event_json(event: EventView, payload: JsonView) -> JsonView {
    match event {
        EventView::Armed => named("armed"@),
        EventView::Listening { ms } => with_field(named("listening"@), "ms"@, nat_view(ms)),
        EventView::RecordingStopped => named("recording_stopped"@),
        EventView::Accepted => named("accepted"@),
        EventView::Transcribing => named("transcribing"@),
        EventView::Transcript(text) => with_field(named("transcript"@), "text"@, text_view(text)),
        EventView::Planning { tool } => with_field(named("planning"@), "tool"@, text_view(tool)),
        EventView::Dispatching(action) => {
            let event = named("dispatching"@);
            with_field(event, "action"@, text_view(action))
        },
        EventView::AgentStep { label, source, task, tool, step_index, step_total, ttl_ms } => {
            let event = named("agent_step"@);
            let event = with_field(event, "label"@, text_view(label));
            let event = with_field(event, "source"@, opt_text_view(source));
            let event = with_field(event, "task"@, opt_text_view(task));
            let event = with_field(event, "tool"@, opt_text_view(tool));
            let event = with_field(event, "step_index"@, opt_place_view(step_index));
            let event = with_field(event, "step_total"@, opt_place_view(step_total));
            with_field(event, "ttl_ms"@, opt_nat_view(ttl_ms))
        },
        EventView::UiMode { mode, source } => {
            let event = named("ui_mode"@);
            let event = with_field(event, "mode"@, text_view(mode_name(mode)));
            with_field(event, "source"@, opt_text_view(source))
        },
        EventView::AutomationActivity { label, source, tool } => {
            let event = named("automation_activity"@);
            let event = with_field(event, "label"@, text_view(label));
            let event = with_field(event, "source"@, opt_text_view(source));
            with_field(event, "tool"@, opt_text_view(tool))
        },
        EventView::Reply(text) => with_field(named("reply"@), "text"@, text_view(text)),
        EventView::AutomationReply(text) => {
            let event = named("automation_reply"@);
            with_field(event, "text"@, text_view(text))
        },
        EventView::Error(text) => with_field(named("error"@), "text"@, text_view(text)),
        EventView::AudioDiagnostic {
            device_name,
            channels,
            sample_format,
            sample_rate,
            duration_ms,
            peak_amplitude,
            rms_amplitude_ppm,
            wav_bytes,
        } => {
            let event = named("audio_diagnostic"@);
            let event = with_field(event, "device_name"@, text_view(device_name));
            let event = with_field(event, "channels"@, nat_view(channels as u64));
            let event = with_field(event, "sample_format"@, text_view(sample_format));
            let event = with_field(event, "sample_rate"@, nat_view(sample_rate as u64));
            let event = with_field(event, "duration_ms"@, nat_view(duration_ms));
            let event = with_field(event, "peak_amplitude"@, nat_view(peak_amplitude as u64));
            let event = with_field(event, "rms_amplitude_ppm"@, nat_view(rms_amplitude_ppm as u64));
            with_field(event, "wav_bytes"@, nat_view(wav_bytes))
        },
        EventView::SttDiagnostic { backend, model, generation_id, audio_ms, transcript_class } => {
            let event = named("stt_diagnostic"@);
            let event = with_field(event, "backend"@, text_view(backend));
            let event = with_field(event, "model"@, text_view(model));
            let event = with_field(event, "generation_id"@, opt_text_view(generation_id));
            let event = with_field(event, "audio_ms"@, opt_nat_view(audio_ms));
            with_field(event, "transcript_class"@, text_view(transcript_class))
        },
        EventView::Metric { name, ms } => {
            let event = named("metric"@);
            let event = with_field(event, "name"@, text_view(name));
            with_field(event, "ms"@, nat_view(ms))
        },
        EventView::SceneSet(_) => with_field(named("scene_set"@), "scene"@, payload),
        EventView::SceneReset => named("scene_reset"@),
        EventView::SceneTheme(_) => with_field(named("scene_theme"@), "theme"@, payload),
        EventView::SceneBackground(_) => {
            let event = named("scene_background"@);
            with_field(event, "background"@, payload)
        },
        EventView::ToggleExpanded => named("toggle_expanded"@),
        EventView::SetExpanded(expanded) => {
            let event = named("set_expanded"@);
            with_field(event, "expanded"@, JsonView::Bool(expanded))
        },
        EventView::SetMinimized(minimized) => {
            let event = named("set_minimized"@);
            with_field(event, "minimized"@, JsonView::Bool(minimized))
        },
        EventView::Idle => named("idle"@),
    }
}

/// An event as JSON. `payload` is the scene, the theme or the background of an
/// event that carries one.
pub fn headless_event_json(event: &VoiceUiEvent, payload: &Json) -> (value: Json)
    ensures
        value@ == event_json(event@, payload@),
{
    match event {
        VoiceUiEvent::Armed => event_object("armed"),
        VoiceUiEvent::Listening { ms } => {
            let mut value = event_object("listening");
            value.set("ms", Json::number(*ms));
            value
        },
        VoiceUiEvent::RecordingStopped => event_object("recording_stopped"),
        VoiceUiEvent::Accepted => event_object("accepted"),
        VoiceUiEvent::Transcribing => event_object("transcribing"),
        VoiceUiEvent::Transcript(text) => {
            let mut value = event_object("transcript");
            value.set("text", Json::text(text.as_str()));
            value
        },
        VoiceUiEvent::Planning { tool } => {
            let mut value = event_object("planning");
            value.set("tool", Json::text(tool.as_str()));
            value
        },
        VoiceUiEvent::Dispatching(action) => {
            let mut value = event_object("dispatching");
            value.set("action", Json::text(action.as_str()));
            value
        },
        VoiceUiEvent::AgentStep { label, source, task, tool, step_index, step_total, ttl_ms } => {
            let mut value = event_object("agent_step");
            value.set("label", Json::text(label.as_str()));
            value.set("source", Json::opt_text(source));
            value.set("task", Json::opt_text(task));
            value.set("tool", Json::opt_text(tool));
            value.set("step_index", place_json(*step_index));
            value.set("step_total", place_json(*step_total));
            value.set("ttl_ms", Json::opt_number(*ttl_ms));
            value
        },
        VoiceUiEvent::UiMode { mode, source } => {
            let mut value = event_object("ui_mode");
            value.set("mode", Json::text(ui_mode_name(*mode)));
            value.set("source", Json::opt_text(source));
            value
        },
        VoiceUiEvent::AutomationActivity { label, source, tool } => {
            let mut value = event_object("automation_activity");
            value.set("label", Json::text(label.as_str()));
            value.set("source", Json::opt_text(source));
            value.set("tool", Json::opt_text(tool));
            value
        },
        VoiceUiEvent::Reply(text) => {
            let mut value = event_object("reply");
            value.set("text", Json::text(text.as_str()));
            value
        },
        VoiceUiEvent::AutomationReply(text) => {
            let mut value = event_object("automation_reply");
            value.set("text", Json::text(text.as_str()));
            value
        },
        VoiceUiEvent::Error(text) => {
            let mut value = event_object("error");
            value.set("text", Json::text(text.as_str()));
            value
        },
        VoiceUiEvent::AudioDiagnostic {
            device_name,
            channels,
            sample_format,
            sample_rate,
            duration_ms,
            peak_amplitude,
            rms_amplitude_ppm,
            wav_bytes,
        } => {
            let mut value = event_object("audio_diagnostic");
            value.set("device_name", Json::text(device_name.as_str()));
            value.set("channels", Json::number(*channels as u64));
            value.set("sample_format", Json::text(sample_format.as_str()));
            value.set("sample_rate", Json::number(*sample_rate as u64));
            value.set("duration_ms", Json::number(*duration_ms));
            value.set("peak_amplitude", Json::number(*peak_amplitude as u64));
            value.set("rms_amplitude_ppm", Json::number(*rms_amplitude_ppm as u64));
            value.set("wav_bytes", Json::number(*wav_bytes));
            value
        },
        VoiceUiEvent::SttDiagnostic { backend, model, generation_id, audio_ms, transcript_class } => {
            let mut value = event_object("stt_diagnostic");
            value.set("backend", Json::text(backend.as_str()));
            value.set("model", Json::text(model.as_str()));
            value.set("generation_id", Json::opt_text(generation_id));
            value.set("audio_ms", Json::opt_number(*audio_ms));
            value.set("transcript_class", Json::text(transcript_class.as_str()));
            value
        },
        VoiceUiEvent::Metric { name, ms } => {
            let mut value = event_object("metric");
            value.set("name", Json::text(name.as_str()));
            value.set("ms", Json::number(*ms));
            value
        },
        VoiceUiEvent::SceneSet(_) => {
            let mut value = event_object("scene_set");
            value.set("scene", payload.clone());
            value
        },
        VoiceUiEvent::SceneReset => event_object("scene_reset"),
        VoiceUiEvent::SceneTheme(_) => {
            let mut value = event_object("scene_theme");
            value.set("theme", payload.clone());
            value
        },
        VoiceUiEvent::SceneBackground(_) => {
            let mut value = event_object("scene_background");
            value.set("background", payload.clone());
            value
        },
        VoiceUiEvent::ToggleExpanded => event_object("toggle_expanded"),
        VoiceUiEvent::SetExpanded(expanded) => {
            let mut value = event_object("set_expanded");
            value.set("expanded", Json::Bool(*expanded));
            value
        },
        VoiceUiEvent::SetMinimized(minimized) => {
            let mut value = event_object("set_minimized");
            value.set("minimized", Json::Bool(*minimized));
            value
        },
        VoiceUiEvent::Idle => event_object("idle"),
    }
}

/// The line of an event.
pub fn headless_event_line(event: &VoiceUiEvent, payload: &Json) -> (line: Option<String>)
    ensures
        opt_text(line) == json_printed(event_json(event@, payload@)),
{
    print(&headless_event_json(event, payload))
}

/// An input device, as it is listed.
#[derive(Clone, Debug, PartialEq, Eq)]
pub struct InputDevice {
    pub name: String,
    pub channels: Option<u16>,
    pub sample_rate: Option<u32>,
    pub sample_format: Option<String>,
}

pub open spec fn opt_rate_view(rate: Option<u32>) -> JsonView {
    match rate {
        Some(n) => nat_view(n as u64),
        None => JsonView::Null,
    }
}

/// An input device as JSON.
pub open spec fn device_json(device: InputDevice, default_name: Option<Seq<char>>) -> JsonView {
    with_field(
        with_field(
            with_field(
                with_field(
                    with_field(empty_object(), "name"@, text_view(device.name@)),
                    "default"@,
                    JsonView::Bool(default_name == Some(device.name@)),
                ),
                "channels"@,
                opt_place_view(device.channels),
            ),
            "sample_rate"@,
            opt_rate_view(device.sample_rate),
        ),
        "sample_format"@,
        opt_text_view(opt_text(device.sample_format)),
    )
}

fn device_value(device: &InputDevice, default_name: &Option<String>) -> (value: Json)
    ensures
        value@ == device_json(*device, opt_text(*default_name)),
{
    let is_default = match default_name {
        Some(name) => crate::text::same(name.as_str(), device.name.as_str()),
        None => false,
    };
    let mut value = Json::object();
    value.set("name", Json::text(device.name.as_str()));
    value.set("default", Json::Bool(is_default));
    value.set("channels", place_json(device.channels));
    value.set(
        "sample_rate",
        match device.sample_rate {
            Some(rate) => Json::number(rate as u64),
            None => Json::Null,
        },
    );
    value.set("sample_format", Json::opt_text(&device.sample_format));
    value
}

/// The list of the input devices, as JSON.
pub fn input_devices_json(devices: &Vec<InputDevice>, default_name: &Option<String>) -> (value: Json)
    ensures
        value@ == with_field(
            with_field(
                named("input_devices"@),
                "default"@,
                opt_text_view(opt_text(*default_name)),
            ),
            "devices"@,
            JsonView::Array(
                Seq::new(
                    devices@.len(),
                    |i: int| device_json(devices@[i], opt_text(*default_name)),
                ),
            ),
        ),
{
    let mut items: Vec<Json> = Vec::new();
    let mut i: usize = 0;
    while i < devices.len()
        invariant
            i <= devices@.len(),
            items@.len() == i,
            forall|j: int|
                0 <= j < i ==> (#[trigger] items@[j])@ == device_json(
                    devices@[j],
                    opt_text(*default_name),
                ),
        decreases devices@.len() - i,
    {
        items.push(device_value(&devices[i], default_name));
        i = i + 1;
    }
    let list = Json::Array(items);
    assert(list@->Array_0 =~= Seq::new(
        devices@.len(),
        |i: int| device_json(devices@[i], opt_text(*default_name)),
    ));
    let mut value = event_object("input_devices");
    value.set("default", Json::opt_text(default_name));
    value.set("devices", list);
    value
}

/// An event is written under its name, whatever it carries.
pub proof fn lemma_event_has_its_name(event: EventView, payload: JsonView)
    ensures
        text_field(event_json(event, payload), "event"@) == Some(
            match event {
                EventView::Armed => "armed"@,
                EventView::Listening { .. } => "listening"@,
                EventView::RecordingStopped => "recording_stopped"@,
                EventView::Accepted => "accepted"@,
                EventView::Transcribing => "transcribing"@,
                EventView::Transcript(_) => "transcript"@,
                EventView::Planning { .. } => "planning"@,
                EventView::Dispatching(_) => "dispatching"@,
                EventView::AgentStep { .. } => "agent_step"@,
                EventView::UiMode { .. } => "ui_mode"@,
                EventView::AutomationActivity { .. } => "automation_activity"@,
                EventView::Reply(_) => "reply"@,
                EventView::AutomationReply(_) => "automation_reply"@,
                EventView::Error(_) => "error"@,
                EventView::AudioDiagnostic { .. } => "audio_diagnostic"@,
                EventView::SttDiagnostic { .. } => "stt_diagnostic"@,
                EventView::Metric { .. } => "metric"@,
                EventView::SceneSet(_) => "scene_set"@,
                EventView::SceneReset => "scene_reset"@,
                EventView::SceneTheme(_) => "scene_theme"@,
                EventView::SceneBackground(_) => "scene_background"@,
                EventView::ToggleExpanded => "toggle_expanded"@,
                EventView::SetExpanded(_) => "set_expanded"@,
                EventView::SetMinimized(_) => "set_minimized"@,
                EventView::Idle => "idle"@,
            },
        ),
{
    reveal_strlit("event");
    reveal_strlit("ms");
    reveal_strlit("text");
    reveal_strlit("tool");
    reveal_strlit("action");
    reveal_strlit("label");
    reveal_strlit("source");
    reveal_strlit("task");
    reveal_strlit("step_index");
    reveal_strlit("step_total");
    reveal_strlit("ttl_ms");
    reveal_strlit("mode");
    reveal_strlit("device_name");
    reveal_strlit("channels");
    reveal_strlit("sample_format");
    reveal_strlit("sample_rate");
    reveal_strlit("duration_ms");
    reveal_strlit("peak_amplitude");
    reveal_strlit("rms_amplitude_ppm");
    reveal_strlit("wav_bytes");
    reveal_strlit("backend");
    reveal_strlit("model");
    reveal_strlit("generation_id");
    reveal_strlit("audio_ms");
    reveal_strlit("transcript_class");
    reveal_strlit("name");
    reveal_strlit("scene");
    reveal_strlit("theme");
    reveal_strlit("background");
    reveal_strlit("expanded");
    reveal_strlit("minimized");
    assert("event"@[0] != "label"@[0]);
    assert("event"@[0] != "model"@[0]);
    assert("event"@[0] != "scene"@[0]);
    assert("event"@[0] != "theme"@[0]);
    assert("event"@.len() == 5);
    assert("ms"@.len() == 2);
    assert("text"@.len() == 4);
    assert("tool"@.len() == 4);
    assert("action"@.len() == 6);
    assert("label"@.len() == 5);
    assert("source"@.len() == 6);
    assert("task"@.len() == 4);
    assert("step_index"@.len() == 10);
    assert("step_total"@.len() == 10);
    assert("ttl_ms"@.len() == 6);
    assert("mode"@.len() == 4);
    assert("device_name"@.len() == 11);
    assert("channels"@.len() == 8);
    assert("sample_format"@.len() == 13);
    assert("sample_rate"@.len() == 11);
    assert("duration_ms"@.len() == 11);
    assert("peak_amplitude"@.len() == 14);
    assert("rms_amplitude_ppm"@.len() == 17);
    assert("wav_bytes"@.len() == 9);
    assert("backend"@.len() == 7);
    assert("model"@.len() == 5);
    assert("generation_id"@.len() == 13);
    assert("audio_ms"@.len() == 8);
    assert("transcript_class"@.len() == 16);
    assert("name"@.len() == 4);
    assert("scene"@.len() == 5);
    assert("theme"@.len() == 5);
    assert("background"@.len() == 10);
    assert("expanded"@.len() == 8);
    assert("minimized"@.len() == 9);
}

/// The text of an event is written as it is.
pub proof fn lemma_text_is_written(text: Seq<char>, payload: JsonView)
    ensures
        text_field(event_json(EventView::Transcript(text), payload), "text"@) == Some(text),
        text_field(event_json(EventView::Reply(text), payload), "text"@) == Some(text),
        text_field(event_json(EventView::AutomationReply(text), payload), "text"@) == Some(text),
        text_field(event_json(EventView::Error(text), payload), "text"@) == Some(text),
        text_field(event_json(EventView::Dispatching(text), payload), "action"@) == Some(text),
        text_field(event_json((EventView::Planning { tool: text }), payload), "tool"@) == Some(text),
{
}

/// A number or a flag that an event carries is written as it is, and so is a
/// scene, a theme or a background.
pub proof fn lemma_value_is_written(event: EventView, payload: JsonView)
    ensures
        event matches EventView::Listening { ms } ==> number_field(
            event_json(event, payload),
            "ms"@,
        ) == Some(ms),
        event matches EventView::Metric { name, ms } ==> text_field(
            event_json(event, payload),
            "name"@,
        ) == Some(name) && number_field(event_json(event, payload), "ms"@) == Some(ms),
        event matches EventView::SetExpanded(on) ==> flag_field(
            event_json(event, payload),
            "expanded"@,
        ) == on,
        event matches EventView::SetMinimized(on) ==> flag_field(
            event_json(event, payload),
            "minimized"@,
        ) == on,
        event is SceneSet ==> field(event_json(event, payload), "scene"@) == Some(payload),
        event is SceneTheme ==> field(event_json(event, payload), "theme"@) == Some(payload),
        event is SceneBackground ==> field(event_json(event, payload), "background"@) == Some(
            payload,
        ),
        event matches EventView::UiMode { mode, source } ==> text_field(
            event_json(event, payload),
            "mode"@,
        ) == Some(
            match mode {
                UiMode::Headful => "headful"@,
                UiMode::Headless => "headless"@,
            },
        ) && text_field(event_json(event, payload), "source"@) == source,
{
    reveal_strlit("name");
    reveal_strlit("ms");
    reveal_strlit("mode");
    reveal_strlit("source");
    assert("name"@[0] != "mode"@[0]);
}

/// A step is written with all that is known of it.
pub proof fn lemma_step_is_written(event: EventView, payload: JsonView)
    ensures
        event matches EventView::AgentStep {
            label,
            source,
            task,
            tool,
            step_index,
            step_total,
            ttl_ms,
        } ==> {
            let line = event_json(event, payload);
            &&& text_field(line, "label"@) == Some(label)
            &&& text_field(line, "source"@) == source
            &&& text_field(line, "task"@) == task
            &&& text_field(line, "tool"@) == tool
            &&& step_index matches Some(n) ==> number_field(line, "step_index"@) == Some(n as u64)
            &&& step_total matches Some(n) ==> number_field(line, "step_total"@) == Some(n as u64)
            &&& number_field(line, "ttl_ms"@) == ttl_ms
        },
        event matches EventView::AutomationActivity { label, source, tool } ==> {
            let line = event_json(event, payload);
            &&& text_field(line, "label"@) == Some(label)
            &&& text_field(line, "source"@) == source
            &&& text_field(line, "tool"@) == tool
        },
{
    reveal_strlit("label");
    reveal_strlit("source");
    reveal_strlit("task");
    reveal_strlit("tool");
    reveal_strlit("step_index");
    reveal_strlit("step_total");
    reveal_strlit("ttl_ms");
    assert("source"@[0] != "ttl_ms"@[0]);
    assert("task"@[1] != "tool"@[1]);
    assert("step_index"@[5] != "step_total"@[5]);
    assert("label"@.len() == 5);
    assert("source"@.len() == 6);
    assert("task"@.len() == 4);
    assert("tool"@.len() == 4);
    assert("step_index"@.len() == 10);
    assert("step_total"@.len() == 10);
    assert("ttl_ms"@.len() == 6);
}

/// A recording and its transcript are written with all that is known of them.
pub proof fn lemma_diagnostics_are_written(event: EventView, payload: JsonView)
    ensures
        event matches EventView::AudioDiagnostic {
            device_name,
            channels,
            sample_format,
            sample_rate,
            duration_ms,
            peak_amplitude,
            rms_amplitude_ppm,
            wav_bytes,
        } ==> {
            let line = event_json(event, payload);
            &&& text_field(line, "device_name"@) == Some(device_name)
            &&& number_field(line, "channels"@) == Some(channels as u64)
            &&& text_field(line, "sample_format"@) == Some(sample_format)
            &&& number_field(line, "sample_rate"@) == Some(sample_rate as u64)
            &&& number_field(line, "duration_ms"@) == Some(duration_ms)
            &&& number_field(line, "peak_amplitude"@) == Some(peak_amplitude as u64)
            &&& number_field(line, "rms_amplitude_ppm"@) == Some(rms_amplitude_ppm as u64)
            &&& number_field(line, "wav_bytes"@) == Some(wav_bytes)
        },
        event matches EventView::SttDiagnostic {
            backend,
            model,
            generation_id,
            audio_ms,
            transcript_class,
        } ==> {
            let line = event_json(event, payload);
            &&& text_field(line, "backend"@) == Some(backend)
            &&& text_field(line, "model"@) == Some(model)
            &&& text_field(line, "generation_id"@) == generation_id
            &&& number_field(line, "audio_ms"@) == audio_ms
            &&& text_field(line, "transcript_class"@) == Some(transcript_class)
        },
{
    reveal_strlit("device_name");
    reveal_strlit("channels");
    reveal_strlit("sample_format");
    reveal_strlit("sample_rate");
    reveal_strlit("duration_ms");
    reveal_strlit("peak_amplitude");
    reveal_strlit("rms_amplitude_ppm");
    reveal_strlit("wav_bytes");
    reveal_strlit("backend");
    reveal_strlit("model");
    reveal_strlit("generation_id");
    reveal_strlit("audio_ms");
    reveal_strlit("transcript_class");
    assert("device_name"@[0] != "sample_rate"@[0]);
    assert("device_name"@[1] != "duration_ms"@[1]);
    assert("channels"@[0] != "audio_ms"@[0]);
    assert("sample_format"@[0] != "generation_id"@[0]);
    assert("sample_rate"@[0] != "duration_ms"@[0]);
    assert("device_name"@.len() == 11);
    assert("channels"@.len() == 8);
    assert("sample_format"@.len() == 13);
    assert("sample_rate"@.len() == 11);
    assert("duration_ms"@.len() == 11);
    assert("peak_amplitude"@.len() == 14);
    assert("rms_amplitude_ppm"@.len() == 17);
    assert("wav_bytes"@.len() == 9);
    assert("backend"@.len() == 7);
    assert("model"@.len() == 5);
    assert("generation_id"@.len() == 13);
    assert("audio_ms"@.len() == 8);
    assert("transcript_class"@.len() == 16);
}

/// A device is listed with what it offers, and marked if it is the default one.
pub proof fn lemma_device_is_listed(device: InputDevice, default_name: Option<Seq<char>>)
    ensures
        text_field(device_json(device, default_name), "name"@) == Some(device.name@),
        flag_field(device_json(device, default_name), "default"@) <==> default_name == Some(
            device.name@,
        ),
        device.channels matches Some(n) ==> number_field(
            device_json(device, default_name),
            "channels"@,
        ) == Some(n as u64),
        device.sample_rate matches Some(n) ==> number_field(
            device_json(device, default_name),
            "sample_rate"@,
        ) == Some(n as u64),
        text_field(device_json(device, default_name), "sample_format"@) == opt_text(
            device.sample_format,
        ),
{
    reveal_strlit("name");
    reveal_strlit("default");
    reveal_strlit("channels");
    reveal_strlit("sample_rate");
    reveal_strlit("sample_format");
    assert("name"@.len() == 4 && "default"@.len() == 7 && "channels"@.len() == 8 && "sample_rate"@.len() == 11 && "sample_format"@.len() == 13);
}

} // verus!
