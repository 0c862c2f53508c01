//! What the daemon reports of an action: its messages, the output in them, and
//! the notes that the agent loop adds.

use vstd::prelude::*;

use crate::json::{
    array_field, counts_no_match, empty_object, field, flag_field, has_content,
    json_has_zero_match_count, json_value_has_semantic_content, opt_text_view, opt_view, text_field,
    text_view, texts_view, views, with_field, Json, JsonView,
};
use crate::json_text::{json_printed, json_read, parse_json, print};
use crate::response::{response_reports_blocker, tells_blocker};
use crate::step::{
    any_step, json_action_uses_aegis_observation, json_action_uses_aegis_page_find, StepTest,
};
use crate::text::{
    char_count, first_at, first_chars, first_position, has_text, is_blank, lemma_first_position,
    occurs_at, opt_text, position_of, rest_from, starts_with, texts, trim, trimmed,
};
use crate::transcript::{expected_final_shell_stdout_value, expected_stdout};

verus! {

/// The strings under `message` among the items of a list, in order.
pub open spec fn item_messages(items: Seq<JsonView>) -> Seq<Seq<char>>
    decreases items.len(),
{
    if items.len() == 0 {
        Seq::empty()
    } else {
        match text_field(items.last(), "message"@) {
            Some(message) => item_messages(items.drop_last()).push(message),
            None => item_messages(items.drop_last()),
        }
    }
}

/// The messages of the evidence, in order.
pub open spec fn messages(evidence: JsonView) -> Seq<Seq<char>> {
    match array_field(evidence, "evidence"@) {
        Some(items) => item_messages(items),
        None => Seq::empty(),
    }
}

/// The output that a message quotes: what stands behind `stdout=`, up to
/// `; stderr=` where that follows.
pub open spec fn stdout_of(message: Seq<char>) -> Option<Seq<char>> {
    match first_position(message, "stdout="@) {
        Some(at) => {
            let after = message.skip(at + "stdout="@.len());
            match first_position(after, "; stderr="@) {
                Some(end) => Some(after.take(end)),
                None => Some(after),
            }
        },
        None => None,
    }
}

pub open spec fn is_filled(s: Seq<char>) -> bool {
    trimmed(s).len() > 0
}

/// The message quotes output that is not blank.
pub open spec fn quotes_output(message: Seq<char>) -> bool {
    stdout_of(message) matches Some(stdout) && is_filled(stdout)
}

/// The message quotes output that says something: text that is no JSON, or
/// JSON with content.
pub open spec fn quotes_content(message: Seq<char>) -> bool {
    stdout_of(message) matches Some(stdout) && is_filled(stdout) && output_has_content(
        json_read(trimmed(stdout)),
    )
}

/// Output that reads as `value`, or as no JSON at all, says something.
pub open spec fn output_has_content(value: Option<JsonView>) -> bool {
    match value {
        Some(value) => has_content(value),
        None => true,
    }
}

/// The message quotes JSON output that counts zero matches.
pub open spec fn quotes_no_match(message: Seq<char>) -> bool {
    stdout_of(message) matches Some(stdout) && output_counts_no_match(json_read(stdout))
}

pub open spec fn output_counts_no_match(value: Option<JsonView>) -> bool {
    value matches Some(value) && counts_no_match(value)
}

/// One of the messages quotes output that is not blank.
pub open spec fn has_output(evidence: JsonView) -> bool {
    exists|i: int|
        0 <= i < messages(evidence).len() && quotes_output(#[trigger] messages(evidence)[i])
}

/// One of the messages quotes output that says something.
pub open spec fn shows_content(evidence: JsonView) -> bool {
    exists|i: int|
        0 <= i < messages(evidence).len() && quotes_content(#[trigger] messages(evidence)[i])
}

/// One of the messages quotes output that counts zero matches.
pub open spec fn shows_no_match(evidence: JsonView) -> bool {
    exists|i: int|
        0 <= i < messages(evidence).len() && quotes_no_match(#[trigger] messages(evidence)[i])
}

/// One of the messages is not blank.
pub open spec fn has_message(evidence: JsonView) -> bool {
    exists|i: int|
        0 <= i < messages(evidence).len() && is_filled(#[trigger] messages(evidence)[i])
}

/// The output of the last message that quotes any.
pub open spec fn last_output(messages: Seq<Seq<char>>) -> Option<Seq<char>>
    decreases messages.len(),
{
    if messages.len() == 0 {
        None
    } else if quotes_output(messages.last()) {
        stdout_of(messages.last())
    } else {
        last_output(messages.drop_last())
    }
}

pub open spec fn last_stdout(evidence: Option<JsonView>) -> Option<Seq<char>> {
    match evidence {
        Some(evidence) => last_output(messages(evidence)),
        None => None,
    }
}

/// The messages of the evidence, in order.
pub fn evidence_messages(evidence: &Json) -> (result: Vec<String>)
    ensures
        texts(result@) == messages(evidence@),
{
    let mut result: Vec<String> = Vec::new();
    match evidence.get_array("evidence") {
        Some(items) => {
            let ghost all = views(items@);
            let mut i: usize = 0;
            assert(texts(result@) =~= item_messages(all.take(0)));
            while i < items.len()
                invariant
                    i <= items@.len(),
                    all == views(items@),
                    texts(result@) == item_messages(all.take(i as int)),
                decreases items@.len() - i,
            {
                assert(all.take(i + 1).drop_last() =~= all.take(i as int));
                assert(all.take(i + 1).last() == items@[i as int]@);
                let ghost before = texts(result@);
                if let Some(message) = items[i].get_text("message") {
                    result.push(message.clone());
                    assert(texts(result@) =~= before.push(message@));
                }
                i = i + 1;
            }
            assert(all.take(all.len() as int) =~= all);
        },
        None => {
            assert(texts(result@) =~= Seq::<Seq<char>>::empty());
        },
    }
    result
}

/// The output that a message quotes.
pub fn message_stdout(message: &str) -> (stdout: Option<String>)
    ensures
        opt_text(stdout) == stdout_of(message@),
{
    match position_of(message, "stdout=") {
        Some(at) => {
            let count = char_count(message);
            assert(at + "stdout="@.len() <= count);
            let after = rest_from(message, at + char_count("stdout="));
            match position_of(after.as_str(), "; stderr=") {
                Some(end) => Some(first_chars(after.as_str(), end)),
                None => Some(after),
            }
        },
        None => None,
    }
}

/// Whether a message quotes output that is not blank.
pub fn message_has_nonempty_stdout(message: &str) -> (found: bool)
    ensures
        found == quotes_output(message@),
{
    match message_stdout(message) {
        Some(stdout) => !is_blank(stdout.as_str()),
        None => false,
    }
}

/// Whether output that reads as `value`, or as no JSON, says something.
pub fn output_is_semantic(value: &Option<Json>) -> (found: bool)
    ensures
        found == output_has_content(opt_view(*value)),
{
    match value {
        Some(value) => json_value_has_semantic_content(value),
        None => true,
    }
}

/// Whether output that reads as `value` counts zero matches.
pub fn output_is_zero_match(value: &Option<Json>) -> (found: bool)
    ensures
        found == output_counts_no_match(opt_view(*value)),
{
    match value {
        Some(value) => json_has_zero_match_count(value),
        None => false,
    }
}

/// Whether a message quotes output that says something.
pub fn message_has_semantic_stdout(message: &str) -> (found: bool)
    ensures
        found == quotes_content(message@),
{
    match message_stdout(message) {
        Some(stdout) => {
            let stdout = trim(stdout.as_str());
            !stdout.as_str().is_empty() && output_is_semantic(&parse_json(stdout.as_str()))
        },
        None => false,
    }
}

/// Whether a message quotes output that counts zero matches.
pub fn message_stdout_json_has_zero_match(message: &str) -> (found: bool)
    ensures
        found == quotes_no_match(message@),
{
    match message_stdout(message) {
        Some(stdout) => output_is_zero_match(&parse_json(stdout.as_str())),
        None => false,
    }
}

/// Whether one of the messages quotes output that is not blank.
pub fn dispatch_evidence_has_nonempty_stdout(evidence: &Json) -> (found: bool)
    ensures
        found == has_output(evidence@),
{
    let list = evidence_messages(evidence);
    let mut i: usize = 0;
    while i < list.len()
        invariant
            i <= list@.len(),
            texts(list@) == messages(evidence@),
            forall|j: int| 0 <= j < i ==> !quotes_output(#[trigger] messages(evidence@)[j]),
        decreases list@.len() - i,
    {
        assert(list@[i as int]@ == messages(evidence@)[i as int]);
        if message_has_nonempty_stdout(list[i].as_str()) {
            return true;
        }
        i = i + 1;
    }
    false
}

/// Whether one of the messages quotes output that says something.
pub fn evidence_has_semantic_stdout(evidence: &Json) -> (found: bool)
    ensures
        found == shows_content(evidence@),
{
    let list = evidence_messages(evidence);
    let mut i: usize = 0;
    while i < list.len()
        invariant
            i <= list@.len(),
            texts(list@) == messages(evidence@),
            forall|j: int| 0 <= j < i ==> !quotes_content(#[trigger] messages(evidence@)[j]),
        decreases list@.len() - i,
    {
        assert(list@[i as int]@ == messages(evidence@)[i as int]);
        if message_has_semantic_stdout(list[i].as_str()) {
            return true;
        }
        i = i + 1;
    }
    false
}

/// Whether one of the messages quotes output that counts zero matches.
pub fn evidence_has_zero_match_stdout(evidence: &Json) -> (found: bool)
    ensures
        found == shows_no_match(evidence@),
{
    let list = evidence_messages(evidence);
    let mut i: usize = 0;
    while i < list.len()
        invariant
            i <= list@.len(),
            texts(list@) == messages(evidence@),
            forall|j: int| 0 <= j < i ==> !quotes_no_match(#[trigger] messages(evidence@)[j]),
        decreases list@.len() - i,
    {
        assert(list@[i as int]@ == messages(evidence@)[i as int]);
        if message_stdout_json_has_zero_match(list[i].as_str()) {
            return true;
        }
        i = i + 1;
    }
    false
}

/// Whether one of the messages is not blank.
pub fn evidence_has_nonempty_readback_message(evidence: &Json) -> (found: bool)
    ensures
        found == has_message(evidence@),
{
    let list = evidence_messages(evidence);
    let mut i: usize = 0;
    while i < list.len()
        invariant
            i <= list@.len(),
            texts(list@) == messages(evidence@),
            forall|j: int| 0 <= j < i ==> !is_filled(#[trigger] messages(evidence@)[j]),
        decreases list@.len() - i,
    {
        assert(list@[i as int]@ == messages(evidence@)[i as int]);
        if !is_blank(list[i].as_str()) {
            return true;
        }
        i = i + 1;
    }
    false
}

/// The output of the last message that quotes any.
pub fn dispatch_evidence_last_nonempty_stdout(evidence: &Option<Json>) -> (stdout: Option<String>)
    ensures
        opt_text(stdout) == last_stdout(opt_view(*evidence)),
{
    match evidence {
        Some(report) => {
            let list = evidence_messages(report);
            let ghost all = messages(report@);
            let mut i: usize = list.len();
            assert(all.take(i as int) =~= all);
            while i > 0
                invariant
                    i <= list@.len(),
                    texts(list@) == all,
                    last_stdout(opt_view(*evidence)) == last_output(all),
                    last_output(all) == last_output(all.take(i as int)),
                decreases i,
            {
                assert(all.take(i as int).last() == list@[i - 1]@);
                assert(all.take(i as int).drop_last() =~= all.take(i - 1));
                if message_has_nonempty_stdout(list[i - 1].as_str()) {
                    return message_stdout(list[i - 1].as_str());
                }
                i = i - 1;
            }
            None
        },
        None => None,
    }
}

/// The string under `key` is there and not blank.
pub open spec fn filled_field(evidence: JsonView, key: Seq<char>) -> bool {
    text_field(evidence, key) matches Some(value) && is_filled(value)
}

fn has_filled_field(evidence: &Json, key: &str) -> (found: bool)
    ensures
        found == filled_field(evidence@, key@),
{
    match evidence.get_text(key) {
        Some(value) => !is_blank(value.as_str()),
        None => false,
    }
}

/// The evidence shows what the task asked for.
pub open spec fn shows_readback(evidence: JsonView) -> bool {
    has_output(evidence) || filled_field(evidence, "stdout"@) || filled_field(evidence, "readback"@)
}

/// Whether the evidence shows what the task asked for.
pub fn evidence_has_task_readback(evidence: &Json) -> (found: bool)
    ensures
        found == shows_readback(evidence@),
{
    dispatch_evidence_has_nonempty_stdout(evidence) || has_filled_field(evidence, "stdout")
        || has_filled_field(evidence, "readback")
}

/// The plan reads a page with Aegis, and nothing that was read says anything.
pub open spec fn page_unread(action: JsonView, evidence: JsonView) -> bool {
    any_step(action, StepTest::AegisObservation) && !shows_content(evidence)
}

/// Whether the plan reads a page with Aegis while nothing that was read says
/// anything.
pub fn aegis_observation_readback_missing(action: &Json, evidence: &Json) -> (found: bool)
    ensures
        found == page_unread(action@, evidence@),
{
    json_action_uses_aegis_observation(action) && !evidence_has_semantic_stdout(evidence)
}

/// Whether the plan reads a page with Aegis, and what was read says something.
pub fn aegis_evidence_has_task_readback(action: &Json, evidence: &Json) -> (found: bool)
    ensures
        found == (any_step(action@, StepTest::AegisObservation) && shows_content(evidence@)),
{
    json_action_uses_aegis_observation(action) && evidence_has_semantic_stdout(evidence)
}

/// Whether the plan looks for text on a page with Aegis, and none was found.
pub fn aegis_attempt_contains_zero_match(action: &Json, evidence: &Json) -> (found: bool)
    ensures
        found == (any_step(action@, StepTest::AegisPageFind) && shows_no_match(evidence@)),
{
    json_action_uses_aegis_page_find(action) && evidence_has_zero_match_stdout(evidence)
}

/// Evidence that is written as `text` names an obstacle.
pub open spec fn text_tells_blocker(text: Option<Seq<char>>) -> bool {
    text matches Some(text) && tells_blocker(text)
}

/// The evidence, written as JSON text, names an obstacle.
pub open spec fn shows_blocker(evidence: JsonView) -> bool {
    text_tells_blocker(json_printed(evidence))
}

/// Whether evidence that is written as `text` names an obstacle.
pub fn printed_evidence_reports_blocker(text: &Option<String>) -> (found: bool)
    ensures
        found == text_tells_blocker(opt_text(*text)),
{
    match text {
        Some(text) => response_reports_blocker(text.as_str()),
        None => false,
    }
}

/// Whether the evidence, written as JSON text, names an obstacle.
pub fn evidence_reports_blocker(evidence: &Json) -> (found: bool)
    ensures
        found == shows_blocker(evidence@),
{
    printed_evidence_reports_blocker(&print(evidence))
}

/// Somebody looked at the screen after the action.
pub open spec fn was_reobserved(evidence: JsonView) -> bool {
    field(evidence, "verification_observation"@) matches Some(observation) && (flag_field(
        observation,
        "has_frame"@,
    ) || flag_field(observation, "has_desktop"@))
}

/// Whether somebody looked at the screen after the action.
pub fn evidence_has_verification_observation(evidence: &Json) -> (found: bool)
    ensures
        found == was_reobserved(evidence@),
{
    match evidence.get("verification_observation") {
        Some(observation) => observation.get_flag("has_frame") || observation.get_flag(
            "has_desktop",
        ),
        None => false,
    }
}

/// Evidence with the note that the turn was not enough. Evidence that is no
/// object is kept under `dispatch_evidence`.
pub open spec fn marked_partial(
    evidence: Option<JsonView>,
    reason: Seq<char>,
    repair_hint: Seq<char>,
) -> JsonView {
    let evidence = match evidence {
        Some(evidence) => evidence,
        None => empty_object(),
    };
    if evidence is Object {
        with_field(
            with_field(
                with_field(evidence, "effect"@, text_view("partial"@)),
                "reason"@,
                text_view(reason),
            ),
            "repair_hint"@,
            text_view(repair_hint),
        )
    } else {
        with_field(
            with_field(
                with_field(empty_object(), "effect"@, text_view("partial"@)),
                "reason"@,
                text_view(reason),
            ),
            "dispatch_evidence"@,
            evidence,
        )
    }
}

fn mark_partial(evidence: Option<Json>, reason: &str, repair_hint: &str) -> (result: Json)
    ensures
        result@ == marked_partial(opt_view(evidence), reason@, repair_hint@),
{
    let mut evidence = match evidence {
        Some(evidence) => evidence,
        None => Json::object(),
    };
    if matches!(evidence, Json::Object(_)) {
        evidence.set("effect", Json::text("partial"));
        evidence.set("reason", Json::text(reason));
        evidence.set("repair_hint", Json::text(repair_hint));
        evidence
    } else {
        let mut result = Json::object();
        result.set("effect", Json::text("partial"));
        result.set("reason", Json::text(reason));
        result.set("dispatch_evidence", evidence);
        result
    }
}

pub open spec fn open_only_note(evidence: Option<JsonView>) -> JsonView {
    marked_partial(
        evidence,
        "open_app_only_did_not_satisfy_long_range_goal"@,
        "Continue with browser, shell, visible UI, reading, search, or verification actions."@,
    )
}

/// The evidence of a turn that only opened applications for long work.
pub fn open_only_incomplete_evidence(evidence: Option<Json>) -> (result: Json)
    ensures
        result@ == open_only_note(opt_view(evidence)),
{
    mark_partial(
        evidence,
        "open_app_only_did_not_satisfy_long_range_goal",
        "Continue with browser, shell, visible UI, reading, search, or verification actions.",
    )
}

pub open spec fn no_readback_note(evidence: Option<JsonView>) -> JsonView {
    marked_partial(
        evidence,
        "shell_readback_missing_for_verified_output_goal"@,
        "The shell action did not produce stdout for a request that requires verified readback. Run a bounded shell command that reads the target output and emits the verified value."@,
    )
}

/// The evidence of a shell turn without the output that was asked for.
pub fn shell_readback_missing_evidence(evidence: Option<Json>) -> (result: Json)
    ensures
        result@ == no_readback_note(opt_view(evidence)),
{
    mark_partial(
        evidence,
        "shell_readback_missing_for_verified_output_goal",
        "The shell action did not produce stdout for a request that requires verified readback. Run a bounded shell command that reads the target output and emits the verified value.",
    )
}

pub open spec fn unread_page_note(evidence: Option<JsonView>) -> JsonView {
    marked_partial(
        evidence,
        "aegis_observation_readback_missing_for_long_range_goal"@,
        "The Aegis observation produced no readable stdout for a long-range browser task. Use a different Aegis page command, link/open refinement, or page text scope that returns usable evidence."@,
    )
}

/// The evidence of a turn that read a page with Aegis and got nothing.
pub fn aegis_readback_missing_evidence(evidence: Option<Json>) -> (result: Json)
    ensures
        result@ == unread_page_note(opt_view(evidence)),
{
    mark_partial(
        evidence,
        "aegis_observation_readback_missing_for_long_range_goal",
        "The Aegis observation produced no readable stdout for a long-range browser task. Use a different Aegis page command, link/open refinement, or page text scope that returns usable evidence.",
    )
}

pub open spec fn trimmed_opt(s: Option<Seq<char>>) -> Option<Seq<char>> {
    match s {
        Some(s) => Some(trimmed(s)),
        None => None,
    }
}

/// The note that the output was not the one that the user quoted.
pub open spec fn wrong_output_note(
    evidence: Option<JsonView>,
    expected: Option<Seq<char>>,
    observed: Option<Seq<char>>,
) -> JsonView {
    let base = match evidence {
        Some(evidence) => evidence,
        None => empty_object(),
    };
    let target = if base is Object {
        base
    } else {
        empty_object()
    };
    let noted = with_field(
        with_field(
            with_field(
                with_field(target, "effect"@, text_view("partial"@)),
                "reason"@,
                text_view("shell_expected_final_stdout_not_observed"@),
            ),
            "expected_final_stdout"@,
            opt_text_view(expected),
        ),
        "observed_stdout"@,
        opt_text_view(observed),
    );
    if base is Object {
        with_field(
            noted,
            "repair_hint"@,
            text_view(
                "The shell action did not produce the requested exact final stdout. Continue by producing the expected final value, reading it back to stdout, and then report that exact stdout."@,
            ),
        )
    } else {
        with_field(noted, "dispatch_evidence"@, base)
    }
}

/// The evidence of a shell turn with another output than the one that the user
/// quoted.
pub fn shell_expected_stdout_missing_evidence(transcript: &str, evidence: Option<Json>) -> (result:
    Json)
    ensures
        result@ == wrong_output_note(
            opt_view(evidence),
            expected_stdout(transcript@),
            trimmed_opt(last_stdout(opt_view(evidence))),
        ),
{
    let expected = expected_final_shell_stdout_value(transcript);
    let observed = match dispatch_evidence_last_nonempty_stdout(&evidence) {
        Some(stdout) => Some(trim(stdout.as_str())),
        None => None,
    };
    let base = match evidence {
        Some(evidence) => evidence,
        None => Json::object(),
    };
    let is_object = matches!(base, Json::Object(_));
    let mut target = if is_object {
        base.clone()
    } else {
        Json::object()
    };
    target.set("effect", Json::text("partial"));
    target.set("reason", Json::text("shell_expected_final_stdout_not_observed"));
    target.set("expected_final_stdout", Json::opt_text(&expected));
    target.set("observed_stdout", Json::opt_text(&observed));
    if is_object {
        target.set(
            "repair_hint",
            Json::text(
                "The shell action did not produce the requested exact final stdout. Continue by producing the expected final value, reading it back to stdout, and then report that exact stdout.",
            ),
        );
    } else {
        target.set("dispatch_evidence", base);
    }
    target
}

/// What a second look at the screen gave.
pub open spec fn observation_json(
    has_frame: bool,
    has_desktop: bool,
    errors: Seq<Seq<char>>,
) -> JsonView {
    with_field(
        with_field(
            with_field(empty_object(), "has_frame"@, JsonView::Bool(has_frame)),
            "has_desktop"@,
            JsonView::Bool(has_desktop),
        ),
        "errors"@,
        texts_view(errors),
    )
}

/// Evidence with a second look added. Evidence that is no object is kept under
/// `dispatch_evidence`.
pub open spec fn with_observation(evidence: Option<JsonView>, observation: JsonView) -> JsonView {
    match evidence {
        Some(JsonView::Object(fields)) => JsonView::Object(
            fields.insert("verification_observation"@, observation),
        ),
        Some(other) => with_field(
            with_field(empty_object(), "dispatch_evidence"@, other),
            "verification_observation"@,
            observation,
        ),
        None => with_field(empty_object(), "verification_observation"@, observation),
    }
}

/// Evidence with a second look added.
pub fn add_observation(
    evidence: Option<Json>,
    has_frame: bool,
    has_desktop: bool,
    errors: &Vec<String>,
) -> (result: Json)
    ensures
        result@ == with_observation(
            opt_view(evidence),
            observation_json(has_frame, has_desktop, texts(errors@)),
        ),
{
    let mut observation = Json::object();
    observation.set("has_frame", Json::Bool(has_frame));
    observation.set("has_desktop", Json::Bool(has_desktop));
    observation.set("errors", Json::text_list(errors));
    let mut result = match evidence {
        Some(evidence) => {
            if matches!(evidence, Json::Object(_)) {
                evidence
            } else {
                let mut kept = Json::object();
                kept.set("dispatch_evidence", evidence);
                kept
            }
        },
        None => Json::object(),
    };
    result.set("verification_observation", observation);
    result
}

/// A second look that saw the screen is found again in the evidence.
pub proof fn lemma_observation_is_found(
    evidence: Option<JsonView>,
    has_frame: bool,
    has_desktop: bool,
    errors: Seq<Seq<char>>,
)
    ensures
        was_reobserved(
            with_observation(evidence, observation_json(has_frame, has_desktop, errors)),
        ) == (has_frame || has_desktop),
{
    reveal_strlit("has_frame");
    reveal_strlit("has_desktop");
    reveal_strlit("errors");
    assert("has_frame"@.len() != "has_desktop"@.len());
    assert("has_frame"@.len() != "errors"@.len());
    assert("has_desktop"@.len() != "errors"@.len());
}

/// A turn that is marked as not enough has the effect `partial` and names its
/// reason, and keeps whatever else the daemon reported.
pub proof fn lemma_partial_mark(
    evidence: Option<JsonView>,
    reason: Seq<char>,
    repair_hint: Seq<char>,
    key: Seq<char>,
)
    requires
        key != "effect"@,
        key != "reason"@,
        key != "repair_hint"@,
    ensures
        text_field(marked_partial(evidence, reason, repair_hint), "effect"@) == Some("partial"@),
        text_field(marked_partial(evidence, reason, repair_hint), "reason"@) == Some(reason),
        evidence matches Some(JsonView::Object(fields)) ==> field(
            marked_partial(evidence, reason, repair_hint),
            key,
        ) == field(JsonView::Object(fields), key),
        evidence matches Some(other) ==> other is Object || field(
            marked_partial(evidence, reason, repair_hint),
            "dispatch_evidence"@,
        ) == Some(other),
{
    reveal_strlit("effect");
    reveal_strlit("reason");
    reveal_strlit("repair_hint");
    reveal_strlit("dispatch_evidence");
    assert("effect"@[0] != "reason"@[0]);
    assert("effect"@.len() != "repair_hint"@.len());
    assert("reason"@.len() != "repair_hint"@.len());
    assert("effect"@.len() != "dispatch_evidence"@.len());
    assert("reason"@.len() != "dispatch_evidence"@.len());
}

/// The output that is reported is the one that the last message with output
/// quotes, whatever the messages before it quote; without such a message there
/// is none.
pub proof fn lemma_last_output_is_reported(messages: Seq<Seq<char>>, k: int, stdout: Seq<char>)
    requires
        forall|j: int|
            0 <= j && k < j < messages.len() ==> (stdout_of(
                #[trigger] messages[j],
            ) matches Some(other)
                ==> trimmed(other).len() == 0),
    ensures
        0 <= k < messages.len() && stdout_of(messages[k]) == Some(stdout) && trimmed(stdout).len() > 0
            ==> last_output(messages) == Some(stdout),
        k < 0 ==> last_output(messages) is None,
    decreases messages.len(),
{
    if messages.len() > 0 && k < messages.len() - 1 {
        let earlier = messages.drop_last();
        assert(messages[messages.len() - 1] == messages.last());
        assert(!quotes_output(messages.last()));
        assert forall|j: int| 0 <= j && k < j < earlier.len() implies (stdout_of(
            #[trigger] earlier[j],
        ) matches Some(other) ==> trimmed(other).len() == 0) by {
            assert(earlier[j] == messages[j]);
        }
        lemma_last_output_is_reported(earlier, k, stdout);
    }
}

/// A message quotes what stands between its first `stdout=` and the first
/// `; stderr=` behind it, or all that follows where there is none.
pub proof fn lemma_output_is_quoted(before: Seq<char>, stdout: Seq<char>, after: Seq<char>)
    requires
        forall|at: int|
            0 <= at < before.len() ==> !occurs_at(
                before + "stdout="@ + stdout + after,
                "stdout="@,
                at,
            ),
    ensures
        after.len() == 0 && !has_text(stdout, "; stderr="@) ==> stdout_of(
            before + "stdout="@ + stdout + after,
        ) == Some(stdout),
        starts_with(after, "; stderr="@) && (forall|at: int|
            0 <= at < stdout.len() ==> !occurs_at(stdout + after, "; stderr="@, at)) ==> stdout_of(
            before + "stdout="@ + stdout + after,
        ) == Some(stdout),
{
    let message = before + "stdout="@ + stdout + after;
    let at = before.len() as int;
    assert(message.subrange(at, at + "stdout="@.len()) =~= "stdout="@);
    assert(first_at(message, "stdout="@, at)) by {
        assert forall|earlier: int| earlier < at implies !occurs_at(message, "stdout="@, earlier) by {
            if earlier >= 0 {
                assert(!occurs_at(before + "stdout="@ + stdout + after, "stdout="@, earlier));
            }
        }
    }
    assert(occurs_at(message, "stdout="@, at));
    lemma_first_position(message, "stdout="@, at);
    let rest = message.skip(at + "stdout="@.len());
    assert(rest =~= stdout + after);
    if after.len() == 0 && !has_text(stdout, "; stderr="@) {
        assert(rest =~= stdout);
    }
    if starts_with(after, "; stderr="@) && (forall|at: int|
        0 <= at < stdout.len() ==> !occurs_at(stdout + after, "; stderr="@, at)) {
        let end = stdout.len() as int;
        assert(rest.subrange(end, end + "; stderr="@.len()) =~= after.subrange(
            0,
            "; stderr="@.len() as int,
        ));
        assert(occurs_at(rest, "; stderr="@, end));
        assert forall|earlier: int| earlier < end implies !occurs_at(rest, "; stderr="@, earlier) by {
            if earlier >= 0 {
                assert(!occurs_at(stdout + after, "; stderr="@, earlier));
            }
        }
        assert(first_at(rest, "; stderr="@, end));
        lemma_first_position(rest, "; stderr="@, end);
        assert(rest.take(end) =~= stdout);
    }
}

/// A message without `stdout=` quotes nothing.
pub proof fn lemma_nothing_is_quoted(message: Seq<char>)
    ensures
        !has_text(message, "stdout="@) ==> stdout_of(message) is None,
        has_text(message, "stdout="@) ==> stdout_of(message) is Some,
{
}

/// The messages of a report are those of its items, in their order; an item
/// without a message adds none.
pub proof fn lemma_messages_in_order(a: Seq<JsonView>, b: Seq<JsonView>, item: JsonView)
    ensures
        item_messages(a + b) == item_messages(a) + item_messages(b),
        text_field(item, "message"@) matches Some(message) ==> item_messages(seq![item]) == seq![
            message,
        ],
        text_field(item, "message"@) is None ==> item_messages(seq![item]) == Seq::<
            Seq<char>,
        >::empty(),
    decreases b.len(),
{
    assert(seq![item].drop_last() =~= Seq::<JsonView>::empty());
    assert(seq![item].last() == item);
    assert(item_messages(Seq::<JsonView>::empty()) =~= Seq::<Seq<char>>::empty());
    if text_field(item, "message"@) is Some {
        assert(item_messages(seq![item]) =~= seq![text_field(item, "message"@)->Some_0]);
    }
    if b.len() == 0 {
        assert(a + b =~= a);
        assert(item_messages(a) + item_messages(b) =~= item_messages(a));
    } else {
        lemma_messages_in_order(a, b.drop_last(), item);
        assert((a + b).drop_last() =~= a + b.drop_last());
        assert((a + b).last() == b.last());
        assert(item_messages(a + b) =~= item_messages(a) + item_messages(b));
    }
}

/// A report whose items all have a message has exactly those messages.
pub proof fn lemma_each_item_has_its_message(evidence: JsonView, items: Seq<JsonView>)
    requires
        array_field(evidence, "evidence"@) == Some(items),
        forall|i: int|
            0 <= i < items.len() ==> text_field(#[trigger] items[i], "message"@) is Some,
    ensures
        messages(evidence).len() == items.len(),
        forall|i: int|
            0 <= i < items.len() ==> text_field(items[i], "message"@) == Some(
                #[trigger] messages(evidence)[i],
            ),
{
    lemma_item_messages(items);
}

proof fn lemma_item_messages(items: Seq<JsonView>)
    requires
        forall|i: int|
            0 <= i < items.len() ==> text_field(#[trigger] items[i], "message"@) is Some,
    ensures
        item_messages(items).len() == items.len(),
        forall|i: int|
            0 <= i < items.len() ==> text_field(items[i], "message"@) == Some(
                #[trigger] item_messages(items)[i],
            ),
    decreases items.len(),
{
    if items.len() > 0 {
        let earlier = items.drop_last();
        assert forall|i: int| 0 <= i < earlier.len() implies text_field(
            #[trigger] earlier[i],
            "message"@,
        ) is Some by {
            assert(earlier[i] == items[i]);
        }
        lemma_item_messages(earlier);
        assert(items[items.len() - 1] == items.last());
        assert forall|i: int| 0 <= i < items.len() implies text_field(items[i], "message"@) == Some(
            #[trigger] item_messages(items)[i],
        ) by {
            if i < earlier.len() {
                assert(item_messages(items)[i] == item_messages(earlier)[i]);
                assert(earlier[i] == items[i]);
            }
        }
    }
}

/// Evidence shows output, content or a count of zero matches as soon as one of
/// its messages does, whichever it is.
pub proof fn lemma_one_message_is_enough(evidence: JsonView, i: int, stdout: Seq<char>)
    requires
        0 <= i < messages(evidence).len(),
        stdout_of(messages(evidence)[i]) == Some(stdout),
    ensures
        trimmed(stdout).len() > 0 ==> has_output(evidence) && shows_readback(evidence)
            && last_stdout(Some(evidence)) is Some,
        trimmed(stdout).len() > 0 && json_read(trimmed(stdout)) is None ==> shows_content(evidence),
        trimmed(stdout).len() > 0 && (json_read(trimmed(stdout)) matches Some(value) && has_content(
            value,
        )) ==> shows_content(evidence),
        json_read(stdout) matches Some(value) && counts_no_match(value) ==> shows_no_match(evidence),
{
    let all = messages(evidence);
    if trimmed(stdout).len() > 0 {
        assert(quotes_output(all[i]));
        lemma_some_output(all, i);
    }
    if quotes_content(all[i]) {
        assert(shows_content(evidence));
    }
    if quotes_no_match(all[i]) {
        assert(shows_no_match(evidence));
    }
}

proof fn lemma_some_output(messages: Seq<Seq<char>>, i: int)
    requires
        0 <= i < messages.len(),
        quotes_output(messages[i]),
    ensures
        last_output(messages) is Some,
    decreases messages.len(),
{
    if !quotes_output(messages.last()) {
        assert(messages.drop_last()[i] == messages[i]);
        lemma_some_output(messages.drop_last(), i);
    }
}

/// Evidence without messages that quote output shows none, unless the daemon
/// reports the output or the text that was read by itself.
pub proof fn lemma_no_message_shows_nothing(evidence: JsonView)
    requires
        forall|i: int|
            0 <= i < messages(evidence).len() ==> (stdout_of(
                #[trigger] messages(evidence)[i],
            ) matches Some(stdout) ==> trimmed(stdout).len() == 0),
    ensures
        !has_output(evidence),
        !shows_content(evidence),
        last_stdout(Some(evidence)) is None,
        shows_readback(evidence) <==> (text_field(evidence, "stdout"@) matches Some(s) && trimmed(
            s,
        ).len() > 0) || (text_field(evidence, "readback"@) matches Some(s) && trimmed(s).len() > 0),
{
    lemma_last_output_is_reported(messages(evidence), -1, Seq::empty());
}

/// A note that another output was wanted says which one and which one came, and
/// keeps what else the daemon reported.
pub proof fn lemma_wrong_output_is_noted(
    evidence: Option<JsonView>,
    expected: Seq<char>,
    observed: Option<Seq<char>>,
    key: Seq<char>,
)
    requires
        key != "effect"@,
        key != "reason"@,
        key != "expected_final_stdout"@,
        key != "observed_stdout"@,
        key != "repair_hint"@,
    ensures
        ({
            let note = wrong_output_note(evidence, Some(expected), observed);
            &&& text_field(note, "effect"@) == Some("partial"@)
            &&& text_field(note, "reason"@) == Some("shell_expected_final_stdout_not_observed"@)
            &&& text_field(note, "expected_final_stdout"@) == Some(expected)
            &&& text_field(note, "observed_stdout"@) == observed
            &&& evidence matches Some(JsonView::Object(fields)) ==> field(note, key) == field(
                JsonView::Object(fields),
                key,
            )
            &&& evidence matches Some(other) ==> other is Object || field(
                note,
                "dispatch_evidence"@,
            ) == Some(other)
        }),
{
    reveal_strlit("effect");
    reveal_strlit("reason");
    reveal_strlit("repair_hint");
    reveal_strlit("dispatch_evidence");
    reveal_strlit("expected_final_stdout");
    reveal_strlit("observed_stdout");
    assert("effect"@[0] != "reason"@[0]);
    assert("effect"@.len() == 6);
    assert("repair_hint"@.len() == 11);
    assert("dispatch_evidence"@.len() == 17);
    assert("expected_final_stdout"@.len() == 21);
    assert("observed_stdout"@.len() == 15);
}

} // verus!
