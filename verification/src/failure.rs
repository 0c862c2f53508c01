//! What failed in a turn, and what the user is told of it. An error is the
//! text of its whole chain of causes.

use vstd::prelude::*;

use crate::spacing::{all_white, lemma_phrase_stands, lemma_trimmed_has_plain_ends};
use crate::speech::SttTranscript;
use crate::text::{contains, has_text, is_blank, lower, opt_text, same, to_lower, trimmed};
use crate::transcript::{class_of, transcript_class};

verus! {

/// The error means that no command was heard.
pub open spec fn means_missed_speech(message: Seq<char>) -> bool {
    ||| has_text(message, "missed_speech"@)
    ||| has_text(message, "speech-to-text returned empty text"@)
    ||| has_text(message, "speech-to-text did not produce a command"@)
}

/// Whether the error means that no command was heard.
pub fn is_missed_speech_message(message: &str) -> (found: bool)
    ensures
        found == means_missed_speech(message@),
{
    contains(message, "missed_speech") || contains(message, "speech-to-text returned empty text")
        || contains(message, "speech-to-text did not produce a command")
}

/// What the user is told of an error.
pub open spec fn visible_error(message: Seq<char>) -> Seq<char> {
    if means_missed_speech(message) {
        "Didn't catch a command."@
    } else if has_text(message, "local speech-to-text"@) || has_text(
        message,
        "No such file or directory: 'ffmpeg'"@,
    ) {
        "Local speech-to-text needs attention."@
    } else if has_text(message, "planning model returned empty content"@) {
        "Planner returned empty content."@
    } else if has_text(message, "model output was not valid action JSON"@) || has_text(
        message,
        "parse plan JSON"@,
    ) {
        "Planner returned invalid action JSON."@
    } else {
        message
    }
}

/// What the user is told of an error.
pub fn user_visible_turn_error(message: &str) -> (result: String)
    ensures
        result@ == visible_error(message@),
{
    if is_missed_speech_message(message) {
        "Didn't catch a command.".to_owned()
    } else if contains(message, "local speech-to-text") || contains(
        message,
        "No such file or directory: 'ffmpeg'",
    ) {
        "Local speech-to-text needs attention.".to_owned()
    } else if contains(message, "planning model returned empty content") {
        "Planner returned empty content.".to_owned()
    } else if contains(message, "model output was not valid action JSON") || contains(
        message,
        "parse plan JSON",
    ) {
        "Planner returned invalid action JSON.".to_owned()
    } else {
        message.to_owned()
    }
}

/// The planner answered with nothing.
pub open spec fn is_empty_plan(message: Seq<char>) -> bool {
    has_text(message, "planning model returned empty content"@)
}

/// Whether the planner answered with nothing.
pub fn planning_error_is_empty_content(message: &str) -> (found: bool)
    ensures
        found == is_empty_plan(message@),
{
    contains(message, "planning model returned empty content")
}

/// The planner answered with what is no plan.
pub open spec fn is_malformed_plan(message: Seq<char>) -> bool {
    ||| has_text(message, "model output was not valid action JSON"@)
    ||| has_text(message, "parse action"@)
    ||| has_text(message, "parse plan JSON"@)
}

/// Whether the planner answered with what is no plan.
pub fn planning_error_is_invalid_action_json(message: &str) -> (found: bool)
    ensures
        found == is_malformed_plan(message@),
{
    contains(message, "model output was not valid action JSON") || contains(message, "parse action")
        || contains(message, "parse plan JSON")
}

/// The planner could not be reached, and may be later.
pub open spec fn is_outage(message: Seq<char>) -> bool {
    let l = lower(message);
    ||| has_text(l, "operation timed out"@)
    ||| has_text(l, "request or response body error"@)
    ||| has_text(l, "error decoding response body"@)
    ||| has_text(l, "decode planning response"@)
    ||| has_text(l, "connection error"@)
    ||| has_text(l, "sendrequest"@)
    ||| has_text(l, "badrecordmac"@)
    ||| has_text(l, "tls"@)
    ||| has_text(l, "status 429"@)
    ||| has_text(l, "rate limit"@)
    ||| has_text(l, "server error"@)
    ||| has_text(l, "temporarily unavailable"@)
}

/// Whether the planner could not be reached, and may be later.
pub fn planning_error_is_retryable_infrastructure(message: &str) -> (found: bool)
    ensures
        found == is_outage(message@),
{
    let l = to_lower(message);
    let l = l.as_str();
    contains(l, "operation timed out") || contains(l, "request or response body error")
        || contains(l, "error decoding response body")
        || contains(l, "decode planning response") || contains(l, "connection error")
        || contains(l, "sendrequest") || contains(l, "badrecordmac") || contains(l, "tls")
        || contains(l, "status 429") || contains(l, "rate limit") || contains(l, "server error")
        || contains(l, "temporarily unavailable")
}

/// The provider of the planner refuses the account.
pub open spec fn is_account_failure(message: Seq<char>) -> bool {
    let l = lower(message);
    ||| has_text(l, "402 payment required"@)
    ||| has_text(l, "insufficient credits"@)
    ||| has_text(l, "prompt tokens limit exceeded"@)
    ||| has_text(l, "limit_source"@)
}

/// Whether the provider of the planner refuses the account.
pub fn planning_error_is_provider_account_failure(message: &str) -> (found: bool)
    ensures
        found == is_account_failure(message@),
{
    let l = to_lower(message);
    let l = l.as_str();
    contains(l, "402 payment required") || contains(l, "insufficient credits")
        || contains(l, "prompt tokens limit exceeded") || contains(l, "limit_source")
}

/// A key that is not blank.
pub open spec fn usable_key(key: Option<Seq<char>>) -> Option<Seq<char>> {
    match key {
        Some(key) => if trimmed(key).len() > 0 {
            Some(key)
        } else {
            None
        },
        None => None,
    }
}

/// The key for speech recognition: `key`, if it is not blank. Only the backend
/// `openrouter` cannot do without one.
pub fn api_key_for_stt_backend_from(backend: &str, key: Option<String>) -> (result: Result<
    Option<String>,
    String,
>)
    ensures
        match result {
            Ok(found) => opt_text(found) == usable_key(opt_text(key)) && (backend@ == "openrouter"@
                ==> found is Some),
            Err(message) => backend@ == "openrouter"@ && usable_key(opt_text(key)) is None
                && message@ == "OPENROUTER_API_KEY is required for OpenRouter speech-to-text"@,
        },
{
    let found = match key {
        Some(key) => if is_blank(key.as_str()) {
            None
        } else {
            Some(key)
        },
        None => None,
    };
    if same(backend, "openrouter") && found.is_none() {
        return Err("OPENROUTER_API_KEY is required for OpenRouter speech-to-text".to_owned());
    }
    Ok(found)
}

/// A recording shorter than this holds no clear command.
pub const MIN_RECORDING: u128 = 650_000_000;

/// Accepts a recording that is long enough to hold a command.
pub fn validate_recorded_audio(duration: u128) -> (result: Result<(), String>)
    ensures
        match result {
            Ok(_) => duration >= MIN_RECORDING,
            Err(message) => duration < MIN_RECORDING && message@
                == "recording was too short to contain a clear command"@,
        },
{
    if duration < MIN_RECORDING {
        return Err("recording was too short to contain a clear command".to_owned());
    }
    Ok(())
}

/// Why a transcript is no command.
pub open spec fn no_command_message(
    model: Seq<char>,
    generation_id: Option<Seq<char>>,
    class: Seq<char>,
) -> Seq<char> {
    "speech-to-text did not produce a command: model="@ + model + " generation_id="@ + (
    match generation_id {
        Some(id) => id,
        None => "unknown"@,
    }) + " class="@ + class
}

/// Accepts a transcript that is a command.
pub fn validate_stt_transcript(transcript: &SttTranscript) -> (result: Result<(), String>)
    ensures
        match result {
            Ok(_) => class_of(transcript.text@) == "command_candidate"@,
            Err(message) => class_of(transcript.text@) != "command_candidate"@ && message@
                == no_command_message(
                transcript.model@,
                opt_text(transcript.generation_id),
                class_of(transcript.text@),
            ),
        },
{
    let class = transcript_class(transcript.text.as_str());
    if same(class, "command_candidate") {
        return Ok(());
    }
    let mut message = "speech-to-text did not produce a command: model=".to_owned();
    message.append(transcript.model.as_str());
    message.append(" generation_id=");
    match &transcript.generation_id {
        Some(id) => message.append(id.as_str()),
        None => message.append("unknown"),
    }
    message.append(" class=");
    message.append(class);
    Err(message)
}

/// A transcript that is refused is reported to the user as a command that was
/// not caught.
pub proof fn lemma_refused_transcript_is_missed_speech(
    model: Seq<char>,
    generation_id: Option<Seq<char>>,
    class: Seq<char>,
)
    ensures
        means_missed_speech(no_command_message(model, generation_id, class)),
        visible_error(no_command_message(model, generation_id, class))
            == "Didn't catch a command."@,
{
    let message = no_command_message(model, generation_id, class);
    let phrase = "speech-to-text did not produce a command"@;
    reveal_strlit("speech-to-text did not produce a command");
    reveal_strlit("speech-to-text did not produce a command: model=");
    assert(message.subrange(0, phrase.len() as int) =~= phrase);
    assert(crate::text::occurs_at(message, phrase, 0));
}

/// The words of an error that means that no command was heard.
pub open spec fn is_missed_speech_sign(phrase: Seq<char>) -> bool {
    ||| phrase == "missed_speech"@
    ||| phrase == "speech-to-text returned empty text"@
    ||| phrase == "speech-to-text did not produce a command"@
}

/// An error with such words means that no command was heard, whatever stands
/// around them.
pub proof fn lemma_missed_speech_is_known(before: Seq<char>, phrase: Seq<char>, after: Seq<char>)
    requires
        is_missed_speech_sign(phrase),
    ensures
        means_missed_speech(before + phrase + after),
{
    lemma_phrase_stands(before, phrase, after);
}

/// An error that means that no command was heard has such words.
pub proof fn lemma_known_missed_speech_has_words(message: Seq<char>)
    requires
        means_missed_speech(message),
    ensures
        exists|phrase: Seq<char>| is_missed_speech_sign(phrase) && #[trigger] has_text(message, phrase),
{
    assert(is_missed_speech_sign("missed_speech"@));
    assert(is_missed_speech_sign("speech-to-text returned empty text"@));
    assert(is_missed_speech_sign("speech-to-text did not produce a command"@));
}

/// The words of an error that means that a plan could not be read.
pub open spec fn is_malformed_sign(phrase: Seq<char>) -> bool {
    ||| phrase == "model output was not valid action JSON"@
    ||| phrase == "parse action"@
    ||| phrase == "parse plan JSON"@
}

/// An error with such words means that a plan could not be read, whatever
/// stands around them.
pub proof fn lemma_malformed_plan_is_known(before: Seq<char>, phrase: Seq<char>, after: Seq<char>)
    requires
        is_malformed_sign(phrase),
    ensures
        is_malformed_plan(before + phrase + after),
{
    lemma_phrase_stands(before, phrase, after);
}

/// An error that means that a plan could not be read has such words.
pub proof fn lemma_known_malformed_plan_has_words(message: Seq<char>)
    requires
        is_malformed_plan(message),
    ensures
        exists|phrase: Seq<char>| is_malformed_sign(phrase) && #[trigger] has_text(message, phrase),
{
    assert(is_malformed_sign("model output was not valid action JSON"@));
    assert(is_malformed_sign("parse action"@));
    assert(is_malformed_sign("parse plan JSON"@));
}

/// The words of an error that means that the planner could not be reached.
pub open spec fn is_outage_sign(phrase: Seq<char>) -> bool {
    ||| phrase == "operation timed out"@
    ||| phrase == "request or response body error"@
    ||| phrase == "error decoding response body"@
    ||| phrase == "decode planning response"@
    ||| phrase == "connection error"@
    ||| phrase == "sendrequest"@
    ||| phrase == "badrecordmac"@
    ||| phrase == "tls"@
    ||| phrase == "status 429"@
    ||| phrase == "rate limit"@
    ||| phrase == "server error"@
    ||| phrase == "temporarily unavailable"@
}

/// An error with such words means an outage, whatever stands around them and
/// however they are written.
pub proof fn lemma_outage_is_known(before: Seq<char>, phrase: Seq<char>, after: Seq<char>)
    requires
        is_outage_sign(lower(phrase)),
    ensures
        is_outage(before + phrase + after),
{
    lemma_phrase_stands(before, phrase, after);
}

/// An error that means an outage has such words.
pub proof fn lemma_known_outage_has_words(message: Seq<char>)
    requires
        is_outage(message),
    ensures
        exists|phrase: Seq<char>| is_outage_sign(phrase) && #[trigger] has_text(lower(message), phrase),
{
    assert(is_outage_sign("operation timed out"@));
    assert(is_outage_sign("request or response body error"@));
    assert(is_outage_sign("error decoding response body"@));
    assert(is_outage_sign("decode planning response"@));
    assert(is_outage_sign("connection error"@));
    assert(is_outage_sign("sendrequest"@));
    assert(is_outage_sign("badrecordmac"@));
    assert(is_outage_sign("tls"@));
    assert(is_outage_sign("status 429"@));
    assert(is_outage_sign("rate limit"@));
    assert(is_outage_sign("server error"@));
    assert(is_outage_sign("temporarily unavailable"@));
}

/// The words of an error that means that the account of the planner is used up.
pub open spec fn is_account_sign(phrase: Seq<char>) -> bool {
    ||| phrase == "402 payment required"@
    ||| phrase == "insufficient credits"@
    ||| phrase == "prompt tokens limit exceeded"@
    ||| phrase == "limit_source"@
}

/// An error with such words is one of the account, whatever stands around them
/// and however they are written.
pub proof fn lemma_account_failure_is_known(before: Seq<char>, phrase: Seq<char>, after: Seq<char>)
    requires
        is_account_sign(lower(phrase)),
    ensures
        is_account_failure(before + phrase + after),
{
    lemma_phrase_stands(before, phrase, after);
}

/// An error of the account has such words.
pub proof fn lemma_known_account_failure_has_words(message: Seq<char>)
    requires
        is_account_failure(message),
    ensures
        exists|phrase: Seq<char>| is_account_sign(phrase) && #[trigger] has_text(lower(message), phrase),
{
    assert(is_account_sign("402 payment required"@));
    assert(is_account_sign("insufficient credits"@));
    assert(is_account_sign("prompt tokens limit exceeded"@));
    assert(is_account_sign("limit_source"@));
}

/// An error that is known is told in plain words, and any other as it is.
pub proof fn lemma_known_errors_are_told_plainly(message: Seq<char>)
    ensures
        has_text(message, "missed_speech"@) || has_text(
            message,
            "speech-to-text returned empty text"@,
        ) ==> visible_error(message) == "Didn't catch a command."@,
        ({
            let heard = !means_missed_speech(message);
            let local = has_text(message, "local speech-to-text"@) || has_text(
                message,
                "No such file or directory: 'ffmpeg'"@,
            );
            let empty = has_text(message, "planning model returned empty content"@);
            let broken = has_text(message, "model output was not valid action JSON"@) || has_text(
                message,
                "parse plan JSON"@,
            );
            &&& heard && local ==> visible_error(message) == "Local speech-to-text needs attention."@
            &&& heard && !local && empty ==> visible_error(message)
                == "Planner returned empty content."@
            &&& heard && !local && !empty && broken ==> visible_error(message)
                == "Planner returned invalid action JSON."@
            &&& heard && !local && !empty && !broken ==> visible_error(message) == message
        }),
        is_empty_plan(message) <==> has_text(message, "planning model returned empty content"@),
{
}

/// A key that is blank counts as none, and any other is taken as it is.
pub proof fn lemma_blank_key_is_none(key: Seq<char>)
    ensures
        all_white(key) ==> usable_key(Some(key)) is None,
        !all_white(key) ==> usable_key(Some(key)) == Some(key),
        usable_key(None) is None,
{
    lemma_trimmed_has_plain_ends(key);
}

} // verus!
