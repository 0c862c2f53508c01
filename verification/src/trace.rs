//! The trace of a turn, for debugging.

use vstd::prelude::*;

use crate::action::action_json;
use crate::audio::RecordedAudio;
use crate::json::{
    empty_object, field, flag_field, nat_view, number_field, opt_text_view, opt_view, or_null,
    text_field, text_view, with_field, Json, JsonView,
};
use crate::paths::{below, join_path};
use crate::plan::PlannedTurn;
use crate::speech::SttTranscript;
use crate::text::{decimal, decimal_of, lemma_number_is_read_back, opt_text};
use crate::time::{as_millis, whole_millis};
use crate::transcript::{class_of, transcript_class};
use crate::turn::{capped_ms, elapsed_ms, RecordingSource, VoiceConfig};

verus! {

/// The version of the trace's lines.
pub const VOICE_TRACE_SCHEMA: &'static str = "cua.voice_trace.v1";

/// The trace of a turn.
#[derive(Clone, Debug)]
pub struct VoiceTurnTrace {
    pub enabled: bool,
    pub path: Option<String>,
    pub turn_id: String,
}

/// The identity of a turn.
pub open spec fn turn_identity(process: u32, wall_ms: u64, sequence: u64) -> Seq<char> {
    decimal(process as nat) + "-"@ + decimal(wall_ms as nat) + "-"@ + decimal(sequence as nat)
}

/// A line of the trace.
pub open spec fn trace_line(turn_id: Seq<char>, event: Seq<char>, wall_ms: u64, data: JsonView) -> JsonView {
    with_field(
        with_field(
            with_field(
                with_field(
                    with_field(empty_object(), "schema_version"@, text_view(VOICE_TRACE_SCHEMA@)),
                    "turn_id"@,
                    text_view(turn_id),
                ),
                "event"@,
                text_view(event),
            ),
            "at_wall_ms"@,
            nat_view(wall_ms),
        ),
        "data"@,
        data,
    )
}

/// Where the trace goes: the setting, or the file of the profile.
pub fn voice_trace_path(setting: &Option<String>, profile_path: &Option<String>) -> (path: Option<
    String,
>)
    ensures
        opt_text(path) == (match *setting {
            Some(setting) => Some(setting@),
            None => opt_text(*profile_path),
        }),
{
    match setting {
        Some(setting) => Some(setting.clone()),
        None => match profile_path {
            Some(path) => Some(path.clone()),
            None => None,
        },
    }
}

impl VoiceTurnTrace {
    /// The trace of a turn. Without debugging there is nowhere to write it.
    pub fn new(
        config: &VoiceConfig,
        path: Option<String>,
        process: u32,
        wall_ms: u64,
        sequence: u64,
    ) -> (trace: VoiceTurnTrace)
        ensures
            trace.enabled == config.debug_trace,
            trace.path == (if config.debug_trace {
                path
            } else {
                None
            }),
            trace.turn_id@ == turn_identity(process, wall_ms, sequence),
    {
        let mut turn_id = decimal_of(process as u64);
        turn_id.append("-");
        turn_id.append(decimal_of(wall_ms).as_str());
        turn_id.append("-");
        turn_id.append(decimal_of(sequence).as_str());
        VoiceTurnTrace {
            enabled: config.debug_trace,
            path: if config.debug_trace {
                path
            } else {
                None
            },
            turn_id,
        }
    }

    /// A line for the trace, where it is to be written.
    pub fn append(&self, event: &str, wall_ms: u64, data: Json) -> (line: Option<Json>)
        ensures
            opt_view(line) == (if self.enabled && self.path is Some {
                Some(trace_line(self.turn_id@, event@, wall_ms, data@))
            } else {
                None
            }),
    {
        if !self.enabled || self.path.is_none() {
            return None;
        }
        let mut line = Json::object();
        line.set("schema_version", Json::text(VOICE_TRACE_SCHEMA));
        line.set("turn_id", Json::text(self.turn_id.as_str()));
        line.set("event", Json::text(event));
        line.set("at_wall_ms", Json::number(wall_ms));
        line.set("data", data);
        Some(line)
    }

    /// Where a file of the turn goes, below the directory of the trace.
    pub fn artifact_path(&self, directory: &Option<String>, name: &str) -> (path: Option<String>)
        ensures
            opt_text(path) == (match *directory {
                Some(directory) => if self.enabled && self.path is Some {
                    Some(
                        below(
                            below(below(directory@, "voice-turn-artifacts"@), self.turn_id@),
                            name@,
                        ),
                    )
                } else {
                    None
                },
                None => None,
            }),
    {
        if !self.enabled || self.path.is_none() {
            return None;
        }
        match directory {
            Some(directory) => {
                let path = join_path(directory.as_str(), "voice-turn-artifacts");
                let path = join_path(path.as_str(), self.turn_id.as_str());
                Some(join_path(path.as_str(), name))
            },
            None => None,
        }
    }

    /// What the trace says of a file that was written.
    pub fn artifact_json(path: &str, data: Json) -> (value: Json)
        ensures
            value@ == with_field(
                with_field(empty_object(), "path"@, text_view(path@)),
                "data"@,
                data@,
            ),
    {
        let mut value = Json::object();
        value.set("path", Json::text(path));
        value.set("data", data);
        value
    }
}

/// The configuration of a turn, for the trace. It holds no key.
pub open spec fn config_json(config: VoiceConfig) -> JsonView {
    with_field(
        with_field(
            with_field(
                with_field(empty_object(), "profile"@, text_view(config.profile@)),
                "stt_backend"@,
                text_view(config.stt_backend@),
            ),
            "stt_model"@,
            text_view(config.stt_model@),
        ),
        "planner_model"@,
        text_view(config.planner_model@),
    )
}

/// The configuration of a turn, for the trace.
pub fn trace_config(config: &VoiceConfig) -> (value: Json)
    ensures
        value@ == config_json(*config),
{
    let mut value = Json::object();
    value.set("profile", Json::text(config.profile.as_str()));
    value.set("stt_backend", Json::text(config.stt_backend.as_str()));
    value.set("stt_model", Json::text(config.stt_model.as_str()));
    value.set("planner_model", Json::text(config.planner_model.as_str()));
    value
}

/// The start of a turn, for the trace.
pub fn turn_start_json(mode: &str, config: &VoiceConfig) -> (value: Json)
    ensures
        value@ == with_field(
            with_field(empty_object(), "mode"@, text_view(mode@)),
            "config"@,
            config_json(*config),
        ),
{
    let mut value = Json::object();
    value.set("mode", Json::text(mode));
    value.set("config", trace_config(config));
    value
}

/// A recording, for the trace. `rms_amplitude` is its mean loudness.
pub fn audio_trace_json(audio: &RecordedAudio, source: &RecordingSource, rms_amplitude: Json) -> (value:
    Json)
    ensures
        value@ == with_field(
            with_field(
                with_field(
                    with_field(
                        with_field(
                            with_field(
                                with_field(
                                    with_field(
                                        empty_object(),
                                        "device_name"@,
                                        text_view(source.device_name@),
                                    ),
                                    "channels"@,
                                    nat_view(source.channels as u64),
                                ),
                                "sample_format"@,
                                text_view(source.sample_format@),
                            ),
                            "sample_rate"@,
                            nat_view(audio.sample_rate as u64),
                        ),
                        "duration_ms"@,
                        nat_view(whole_millis(audio.stats.duration)),
                    ),
                    "peak_amplitude"@,
                    nat_view(audio.stats.peak_amplitude as u64),
                ),
                "rms_amplitude"@,
                rms_amplitude@,
            ),
            "wav_bytes"@,
            nat_view(audio.wav_bytes@.len() as u64),
        ),
{
    let mut value = Json::object();
    value.set("device_name", Json::text(source.device_name.as_str()));
    value.set("channels", Json::number(source.channels as u64));
    value.set("sample_format", Json::text(source.sample_format.as_str()));
    value.set("sample_rate", Json::number(audio.sample_rate as u64));
    value.set("duration_ms", Json::number(as_millis(audio.stats.duration)));
    value.set("peak_amplitude", Json::number(audio.stats.peak_amplitude as u64));
    value.set("rms_amplitude", rms_amplitude);
    value.set("wav_bytes", Json::number(audio.wav_bytes.len() as u64));
    value
}

/// A transcript, for the trace.
pub fn transcript_trace_json(transcript: &SttTranscript, elapsed: u128) -> (value: Json)
    ensures
        value@ == with_field(
            with_field(
                with_field(
                    with_field(
                        with_field(
                            with_field(
                                with_field(empty_object(), "text"@, text_view(transcript.text@)),
                                "class"@,
                                text_view(class_of(transcript.text@)),
                            ),
                            "backend"@,
                            text_view(transcript.backend@),
                        ),
                        "model"@,
                        text_view(transcript.model@),
                    ),
                    "generation_id"@,
                    opt_text_view(opt_text(transcript.generation_id)),
                ),
                "usage"@,
                or_null(opt_view(transcript.usage)),
            ),
            "elapsed_ms"@,
            nat_view(capped_ms(elapsed)),
        ),
{
    let mut value = Json::object();
    value.set("text", Json::text(transcript.text.as_str()));
    value.set("class", Json::text(transcript_class(transcript.text.as_str())));
    value.set("backend", Json::text(transcript.backend.as_str()));
    value.set("model", Json::text(transcript.model.as_str()));
    value.set("generation_id", Json::opt_text(&transcript.generation_id));
    value.set("usage", Json::opt(&transcript.usage));
    value.set("elapsed_ms", Json::number(elapsed_ms(elapsed)));
    value
}

/// A picture of the screen, without its bytes.
#[derive(Clone, Debug, PartialEq, Eq)]
pub struct FrameSummary {
    pub frame_id: u64,
    pub display_id: String,
    pub timestamp_wall_ms: u64,
    pub width: u32,
    pub height: u32,
    pub display_width: u32,
    pub display_height: u32,
    pub encoding: String,
    pub byte_len: u64,
    pub sha256: String,
    pub has_bytes: bool,
}

/// A picture of the screen, for the trace.
pub open spec fn frame_json(frame: FrameSummary) -> JsonView {
    let identity = with_field(
        with_field(
            with_field(empty_object(), "frame_id"@, nat_view(frame.frame_id)),
            "display_id"@,
            text_view(frame.display_id@),
        ),
        "timestamp_wall_ms"@,
        nat_view(frame.timestamp_wall_ms),
    );
    let size = with_field(
        with_field(
            with_field(
                with_field(identity, "width"@, nat_view(frame.width as u64)),
                "height"@,
                nat_view(frame.height as u64),
            ),
            "display_width"@,
            nat_view(frame.display_width as u64),
        ),
        "display_height"@,
        nat_view(frame.display_height as u64),
    );
    with_field(
        with_field(
            with_field(
                with_field(size, "encoding"@, text_view(frame.encoding@)),
                "byte_len"@,
                nat_view(frame.byte_len),
            ),
            "sha256"@,
            text_view(frame.sha256@),
        ),
        "has_bytes"@,
        JsonView::Bool(frame.has_bytes),
    )
}

/// A picture of the screen, for the trace.
pub fn frame_trace_json(frame: &FrameSummary) -> (value: Json)
    ensures
        value@ == frame_json(*frame),
{
    let mut value = Json::object();
    value.set("frame_id", Json::number(frame.frame_id));
    value.set("display_id", Json::text(frame.display_id.as_str()));
    value.set("timestamp_wall_ms", Json::number(frame.timestamp_wall_ms));
    value.set("width", Json::number(frame.width as u64));
    value.set("height", Json::number(frame.height as u64));
    value.set("display_width", Json::number(frame.display_width as u64));
    value.set("display_height", Json::number(frame.display_height as u64));
    value.set("encoding", Json::text(frame.encoding.as_str()));
    value.set("byte_len", Json::number(frame.byte_len));
    value.set("sha256", Json::text(frame.sha256.as_str()));
    value.set("has_bytes", Json::Bool(frame.has_bytes));
    value
}

/// A plan, for the trace.
pub fn plan_trace_json(model: &str, elapsed: u128, plan: &PlannedTurn) -> (value: Json)
    ensures
        value@ == with_field(
            with_field(
                with_field(
                    with_field(empty_object(), "model"@, text_view(model@)),
                    "elapsed_ms"@,
                    nat_view(capped_ms(elapsed)),
                ),
                "response"@,
                text_view(plan@.response),
            ),
            "action"@,
            match plan@.action {
                Some(action) => action_json(action),
                None => JsonView::Null,
            },
        ),
{
    let mut value = Json::object();
    value.set("model", Json::text(model));
    value.set("elapsed_ms", Json::number(elapsed_ms(elapsed)));
    value.set("response", Json::text(plan.response.as_str()));
    value.set(
        "action",
        match &plan.action {
            Some(action) => action.to_json(),
            None => Json::Null,
        },
    );
    value
}

/// A line of the trace names its turn and its event, with the time and the data.
pub proof fn lemma_line_names_its_event(
    turn_id: Seq<char>,
    event: Seq<char>,
    wall_ms: u64,
    data: JsonView,
)
    ensures
        text_field(trace_line(turn_id, event, wall_ms, data), "schema_version"@) == Some(
            "cua.voice_trace.v1"@,
        ),
        text_field(trace_line(turn_id, event, wall_ms, data), "turn_id"@) == Some(turn_id),
        text_field(trace_line(turn_id, event, wall_ms, data), "event"@) == Some(event),
        number_field(trace_line(turn_id, event, wall_ms, data), "at_wall_ms"@) == Some(wall_ms),
        field(trace_line(turn_id, event, wall_ms, data), "data"@) == Some(data),
{
    reveal_strlit("schema_version");
    reveal_strlit("turn_id");
    reveal_strlit("event");
    reveal_strlit("at_wall_ms");
    reveal_strlit("data");
    assert("schema_version"@.len() == 14 && "turn_id"@.len() == 7 && "event"@.len() == 5 && "at_wall_ms"@.len() == 10 && "data"@.len() == 4);
}

/// Two turns that begin at different times, or one after the other, have
/// different names.
pub proof fn lemma_turns_have_their_own_names(
    process: u32,
    wall_ms: u64,
    sequence: u64,
    later_ms: u64,
    later_sequence: u64,
)
    requires
        turn_identity(process, wall_ms, sequence) == turn_identity(
            process,
            later_ms,
            later_sequence,
        ),
    ensures
        wall_ms == later_ms,
        sequence == later_sequence,
{
    reveal_strlit("-");
    let p = decimal(process as nat);
    let a = decimal(wall_ms as nat);
    let b = decimal(sequence as nat);
    let c = decimal(later_ms as nat);
    let d = decimal(later_sequence as nat);
    lemma_number_is_read_back(wall_ms as nat, u64::MAX as nat);
    lemma_number_is_read_back(sequence as nat, u64::MAX as nat);
    lemma_number_is_read_back(later_ms as nat, u64::MAX as nat);
    lemma_number_is_read_back(later_sequence as nat, u64::MAX as nat);
    let x = p + "-"@ + a + "-"@ + b;
    let y = p + "-"@ + c + "-"@ + d;
    let from = p.len() as int + 1;
    if a.len() < c.len() {
        assert(x[from + a.len()] == '-');
        assert(y[from + a.len()] == c[a.len() as int]);
    }
    if c.len() < a.len() {
        assert(y[from + c.len()] == '-');
        assert(x[from + c.len()] == a[c.len() as int]);
    }
    assert(x.subrange(from, from + a.len()) =~= a);
    assert(y.subrange(from, from + c.len()) =~= c);
    let next = from + a.len() + 1;
    assert(x.subrange(next, x.len() as int) =~= b);
    assert(y.subrange(next, y.len() as int) =~= d);
}

/// A frame is traced with all that is known of it.
pub proof fn lemma_frame_is_traced(frame: FrameSummary)
    ensures
        number_field(frame_json(frame), "frame_id"@) == Some(frame.frame_id),
        text_field(frame_json(frame), "display_id"@) == Some(frame.display_id@),
        number_field(frame_json(frame), "timestamp_wall_ms"@) == Some(frame.timestamp_wall_ms),
        number_field(frame_json(frame), "width"@) == Some(frame.width as u64),
        number_field(frame_json(frame), "height"@) == Some(frame.height as u64),
        number_field(frame_json(frame), "display_width"@) == Some(frame.display_width as u64),
        number_field(frame_json(frame), "display_height"@) == Some(frame.display_height as u64),
        text_field(frame_json(frame), "encoding"@) == Some(frame.encoding@),
        number_field(frame_json(frame), "byte_len"@) == Some(frame.byte_len),
        text_field(frame_json(frame), "sha256"@) == Some(frame.sha256@),
        flag_field(frame_json(frame), "has_bytes"@) == frame.has_bytes,
{
    reveal_strlit("frame_id");
    reveal_strlit("display_id");
    reveal_strlit("timestamp_wall_ms");
    reveal_strlit("width");
    reveal_strlit("height");
    reveal_strlit("display_width");
    reveal_strlit("display_height");
    reveal_strlit("encoding");
    reveal_strlit("byte_len");
    reveal_strlit("sha256");
    reveal_strlit("has_bytes");
    assert("frame_id"@[0] != "encoding"@[0]);
    assert("frame_id"@[0] != "byte_len"@[0]);
    assert("height"@[0] != "sha256"@[0]);
    assert("encoding"@[0] != "byte_len"@[0]);
    assert("frame_id"@.len() == 8 && "display_id"@.len() == 10 && "timestamp_wall_ms"@.len() == 17 && "width"@.len() == 5 && "height"@.len() == 6 && "display_width"@.len() == 13 && "display_height"@.len() == 14 && "encoding"@.len() == 8 && "byte_len"@.len() == 8 && "sha256"@.len() == 6 && "has_bytes"@.len() == 9);
}

/// The settings of a turn are traced under their names.
pub proof fn lemma_settings_are_traced(config: VoiceConfig)
    ensures
        text_field(config_json(config), "profile"@) == Some(config.profile@),
        text_field(config_json(config), "stt_backend"@) == Some(config.stt_backend@),
        text_field(config_json(config), "stt_model"@) == Some(config.stt_model@),
        text_field(config_json(config), "planner_model"@) == Some(config.planner_model@),
{
    reveal_strlit("profile");
    reveal_strlit("stt_backend");
    reveal_strlit("stt_model");
    reveal_strlit("planner_model");
    assert("profile"@.len() == 7 && "stt_backend"@.len() == 11 && "stt_model"@.len() == 9 && "planner_model"@.len() == 13);
}

} // verus!
