//! Transcripts of speech recognition.

use vstd::prelude::*;

use crate::json::Json;

verus! {

pub const DEFAULT_STT_MODEL: &'static str = "tiny.en";

pub const DEFAULT_STT_BACKEND: &'static str = "local";

/// What speech recognition made of a recording, and with which model.
#[derive(Debug)]
pub struct SttTranscript {
    pub text: String,
    pub backend: String,
    pub model: String,
    pub generation_id: Option<String>,
    /// How much audio was billed, in milliseconds.
    pub audio_ms: Option<u64>,
    /// What the backend reports of the use that was made of it.
    pub usage: Option<Json>,
}

} // verus!
